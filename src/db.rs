//! Databases, as the MySQL and PostgreSQL clients list them.
use vstd::prelude::*;
use crate::pkgmgr::{before_first, first_before};
use crate::text::{char_seqs, chars_of, lines, lines_of, string_of, trim, trim_of};

verus! {

pub const MYSQL_ENGINE: &'static str = "mysql";

pub const POSTGRES_ENGINE: &'static str = "postgres";

/// Sizes are not measured.
pub const UNKNOWN_SIZE: &'static str = "-";

#[derive(Clone, Debug, PartialEq, Eq)]
pub struct Database {
    pub name: String,
    pub engine: String,
    pub size: String,
}

pub open spec fn db_names(dbs: Seq<Database>) -> Seq<Seq<char>> {
    dbs.map_values(|d: Database| d.name@)
}

pub open spec fn all_of_engine(dbs: Seq<Database>, engine: Seq<char>) -> bool {
    forall|i: int| 0 <= i < dbs.len() ==> (#[trigger] dbs[i]).engine@ == engine && dbs[i].size@
        == UNKNOWN_SIZE@
}

/// The names `mysql -e 'SHOW DATABASES'` lists: every line after the header,
/// trimmed, that is not blank.
pub open spec fn mysql_names(ls: Seq<Seq<char>>) -> Seq<Seq<char>>
    decreases ls.len(),
{
    if ls.len() <= 1 {
        seq![]
    } else if trim(ls.last()).len() > 0 {
        mysql_names(ls.drop_last()).push(trim(ls.last()))
    } else {
        mysql_names(ls.drop_last())
    }
}

/// The names `psql -l -t -A -F '|'` lists: what comes before the first `|`
/// of every line.
pub open spec fn postgres_names(ls: Seq<Seq<char>>) -> Seq<Seq<char>> {
    ls.map_values(|l: Seq<char>| before_first(l, '|'))
}

fn database(name: String, engine: &str) -> (r: Database)
    ensures
        r.name@ == name@,
        r.engine@ == engine@,
        r.size@ == UNKNOWN_SIZE@,
{
    Database { name, engine: engine.to_owned(), size: UNKNOWN_SIZE.to_owned() }
}

pub fn mysql_databases(stdout: &str) -> (r: Vec<Database>)
    ensures
        db_names(r@) == mysql_names(lines(stdout@)),
        all_of_engine(r@, MYSQL_ENGINE@),
{
    let ls = lines_of(&chars_of(stdout));
    let ghost all = char_seqs(ls@);
    let mut out: Vec<Database> = Vec::new();
    let mut i: usize = 0;
    assert(all.take(0) =~= Seq::<Seq<char>>::empty());
    while i < ls.len()
        invariant
            i <= ls@.len(),
            all == char_seqs(ls@),
            db_names(out@) == mysql_names(all.take(i as int)),
            all_of_engine(out@, MYSQL_ENGINE@),
        decreases ls@.len() - i,
    {
        let ghost t = all.take(i + 1);
        assert(t.drop_last() =~= all.take(i as int));
        assert(t.last() == ls@[i as int]@);
        let ghost before = out@;
        if i > 0 {
            let name = trim_of(&ls[i]);
            if name.len() > 0 {
                out.push(database(string_of(&name), MYSQL_ENGINE));
                assert(db_names(out@) =~= db_names(before).push(name@));
            }
        }
        i = i + 1;
    }
    assert(all.take(i as int) =~= all);
    out
}

pub fn postgres_databases(stdout: &str) -> (r: Vec<Database>)
    ensures
        db_names(r@) == postgres_names(lines(stdout@)),
        all_of_engine(r@, POSTGRES_ENGINE@),
{
    let ls = lines_of(&chars_of(stdout));
    let ghost all = char_seqs(ls@);
    let mut out: Vec<Database> = Vec::new();
    let mut i: usize = 0;
    while i < ls.len()
        invariant
            i <= ls@.len(),
            all == char_seqs(ls@),
            db_names(out@) == postgres_names(all.take(i as int)),
            all_of_engine(out@, POSTGRES_ENGINE@),
        decreases ls@.len() - i,
    {
        let ghost before = out@;
        assert(all[i as int] == ls@[i as int]@);
        out.push(database(first_before(&ls[i], '|'), POSTGRES_ENGINE));
        assert(db_names(out@) =~= db_names(before).push(before_first(all[i as int], '|')));
        assert(all.take(i + 1) =~= all.take(i as int).push(all[i as int]));
        assert(postgres_names(all.take(i + 1)) =~= postgres_names(all.take(i as int)).push(
            before_first(all[i as int], '|'),
        ));
        i = i + 1;
    }
    assert(all.take(i as int) =~= all);
    out
}

} // verus!
