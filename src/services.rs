//! System services: the actions a service accepts.
use vstd::prelude::*;
use crate::text::{same_text, char_seqs, chars_of, lines, lines_of, starts_with, has_prefix, string_of, words, words_of};

verus! {

pub const START: &'static str = "start";

pub const STOP: &'static str = "stop";

pub const RESTART: &'static str = "restart";

pub const ENABLE: &'static str = "enable";

#[derive(Clone, Debug, PartialEq, Eq)]
pub struct ServiceControl {
    pub action: String,
}

pub open spec fn permitted_action(a: Seq<char>) -> bool {
    a == START@ || a == STOP@ || a == RESTART@ || a
        == ENABLE@
}

impl ServiceControl {
    /// Whether the action is one a service may be given: start, stop,
    /// restart or enable.
    pub fn is_permitted(&self) -> (r: bool)
        ensures
            r == permitted_action(self.action@),
    {
        let a = self.action.as_str();
        same_text(a, START) || same_text(a, STOP) || same_text(a, RESTART)
            || same_text(a, ENABLE)
    }
}

pub const RUNNING_STATE: &'static str = "running";

pub const EXITED_STATE: &'static str = "exited";

pub const DEAD_STATE: &'static str = "dead";

pub const FAILED_STATE: &'static str = "failed";

pub const ACTIVE_RUNNING: &'static str = "Active (Running)";

pub const ACTIVE_EXITED: &'static str = "Active (Exited)";

pub const STOPPED: &'static str = "Stopped";

pub const FAILED: &'static str = "Failed";

pub const NOT_LOADED: &'static str = "Available (Not Loaded)";

/// Units of these families are not listed.
pub const DBUS_PREFIX: &'static str = "dbus-";

pub const USER_PREFIX: &'static str = "user@";

/// A listed service.
#[derive(Clone, Debug, PartialEq, Eq)]
pub struct Service {
    pub name: String,
    pub status: String,
    pub description: String,
}

pub struct ServiceView {
    pub name: Seq<char>,
    pub status: Seq<char>,
    pub description: Seq<char>,
}

impl View for Service {
    type V = ServiceView;

    open spec fn view(&self) -> ServiceView {
        ServiceView { name: self.name@, status: self.status@, description: self.description@ }
    }
}

pub open spec fn service_views(v: Seq<Service>) -> Seq<ServiceView> {
    v.map_values(|x: Service| x@)
}

/// The readable form of a unit's sub-state; other sub-states stay as they are.
pub open spec fn nice_status(raw: Seq<char>) -> Seq<char> {
    if raw == RUNNING_STATE@ {
        ACTIVE_RUNNING@
    } else if raw == EXITED_STATE@ {
        ACTIVE_EXITED@
    } else if raw == DEAD_STATE@ {
        STOPPED@
    } else if raw == FAILED_STATE@ {
        FAILED@
    } else {
        raw
    }
}

/// Words joined with single spaces.
pub open spec fn joined(ws: Seq<Seq<char>>) -> Seq<char>
    decreases ws.len(),
{
    if ws.len() == 0 {
        seq![]
    } else if ws.len() == 1 {
        ws[0]
    } else {
        joined(ws.drop_last()) + seq![' '] + ws.last()
    }
}

pub open spec fn hidden_unit(name: Seq<char>) -> bool {
    starts_with(name, DBUS_PREFIX@) || starts_with(name, USER_PREFIX@)
}

/// The service a line of `systemctl list-units` describes: unit, load
/// state, active state, sub-state, then the description.
pub open spec fn unit_entry(l: Seq<char>) -> Option<ServiceView> {
    let w = words(l);
    if w.len() >= 4 && !hidden_unit(w[0]) {
        Some(
            ServiceView {
                name: w[0],
                status: nice_status(w[3]),
                description: joined(w.skip(4)),
            },
        )
    } else {
        None
    }
}

pub open spec fn unit_entries(ls: Seq<Seq<char>>) -> Seq<ServiceView>
    decreases ls.len(),
{
    if ls.len() == 0 {
        seq![]
    } else {
        match unit_entry(ls.last()) {
            Some(e) => unit_entries(ls.drop_last()).push(e),
            None => unit_entries(ls.drop_last()),
        }
    }
}

pub open spec fn named_in(seen: Seq<ServiceView>, name: Seq<char>) -> bool {
    exists|k: int| 0 <= k < seen.len() && (#[trigger] seen[k]).name == name
}

/// The service a line of `systemctl list-unit-files` describes, when no
/// loaded unit of `seen` has its name.
pub open spec fn file_entry(l: Seq<char>, seen: Seq<ServiceView>) -> Option<ServiceView> {
    let w = words(l);
    if w.len() >= 2 && !named_in(seen, w[0]) && !hidden_unit(w[0]) {
        Some(ServiceView { name: w[0], status: STOPPED@, description: NOT_LOADED@ })
    } else {
        None
    }
}

pub open spec fn file_entries(ls: Seq<Seq<char>>, seen: Seq<ServiceView>) -> Seq<ServiceView>
    decreases ls.len(),
{
    if ls.len() == 0 {
        seq![]
    } else {
        match file_entry(ls.last(), seen) {
            Some(e) => file_entries(ls.drop_last(), seen).push(e),
            None => file_entries(ls.drop_last(), seen),
        }
    }
}

/// Code-point order on names, which is the byte order of their UTF-8 form.
pub open spec fn name_lt(a: Seq<char>, b: Seq<char>) -> bool
    decreases a.len(),
{
    if a.len() == 0 {
        b.len() > 0
    } else if b.len() == 0 {
        false
    } else if a[0] != b[0] {
        a[0] < b[0]
    } else {
        name_lt(a.drop_first(), b.drop_first())
    }
}

/// Inserts `x` after every entry whose name is not greater than its own.
pub open spec fn insert_by_name(s: Seq<ServiceView>, x: ServiceView) -> Seq<ServiceView>
    decreases s.len(),
{
    if s.len() == 0 {
        seq![x]
    } else if name_lt(x.name, s.last().name) {
        insert_by_name(s.drop_last(), x).push(s.last())
    } else {
        s.push(x)
    }
}

/// The entries sorted by name, entries of equal names kept in their order.
pub open spec fn sorted_by_name(s: Seq<ServiceView>) -> Seq<ServiceView>
    decreases s.len(),
{
    if s.len() == 0 {
        seq![]
    } else {
        insert_by_name(sorted_by_name(s.drop_last()), s.last())
    }
}

/// No entry's name is greater than that of an entry after it.
pub open spec fn is_sorted_by_name(s: Seq<ServiceView>) -> bool {
    forall|i: int, j: int| 0 <= i < j < s.len() ==> !name_lt(#[trigger] s[j].name, #[trigger] s[i].name)
}

proof fn lemma_name_lt_transitive(a: Seq<char>, b: Seq<char>, c: Seq<char>)
    requires
        name_lt(a, b),
        name_lt(b, c),
    ensures
        name_lt(a, c),
    decreases a.len(),
{
    if a.len() > 0 && b.len() > 0 && c.len() > 0 && a[0] == b[0] && b[0] == c[0] {
        lemma_name_lt_transitive(a.drop_first(), b.drop_first(), c.drop_first());
    }
}

proof fn lemma_name_lt_total(a: Seq<char>, b: Seq<char>)
    requires
        a != b,
    ensures
        name_lt(a, b) || name_lt(b, a),
    decreases a.len(),
{
    if a.len() == 0 && b.len() == 0 {
        assert(a =~= b);
    } else if a.len() > 0 && b.len() > 0 && a[0] == b[0] {
        if a.drop_first() == b.drop_first() {
            assert(a =~= seq![a[0]] + a.drop_first());
            assert(b =~= seq![b[0]] + b.drop_first());
        }
        lemma_name_lt_total(a.drop_first(), b.drop_first());
    }
}

proof fn lemma_name_lt_irreflexive(a: Seq<char>)
    ensures
        !name_lt(a, a),
    decreases a.len(),
{
    if a.len() > 0 {
        lemma_name_lt_irreflexive(a.drop_first());
    }
}

/// `!name_lt(b, a)` and `!name_lt(c, b)` give `!name_lt(c, a)`.
proof fn lemma_name_le_transitive(a: Seq<char>, b: Seq<char>, c: Seq<char>)
    requires
        !name_lt(b, a),
        !name_lt(c, b),
    ensures
        !name_lt(c, a),
{
    if name_lt(c, a) {
        if a == b {
        } else if b == c {
        } else {
            lemma_name_lt_total(a, b);
            lemma_name_lt_total(b, c);
            lemma_name_lt_transitive(c, a, b);
        }
    }
}

proof fn lemma_insert_elements(s: Seq<ServiceView>, x: ServiceView)
    ensures
        insert_by_name(s, x).len() == s.len() + 1,
        forall|k: int| 0 <= k < insert_by_name(s, x).len() ==> #[trigger] insert_by_name(s, x)[k] == x
            || exists|m: int| 0 <= m < s.len() && s[m] == insert_by_name(s, x)[k],
    decreases s.len(),
{
    if s.len() > 0 && name_lt(x.name, s.last().name) {
        let init = s.drop_last();
        lemma_insert_elements(init, x);
        let r = insert_by_name(s, x);
        assert forall|k: int| 0 <= k < r.len() implies #[trigger] r[k] == x || exists|m: int|
            0 <= m < s.len() && s[m] == r[k] by {
            if k == r.len() - 1 {
                assert(s[s.len() - 1] == r[k]);
            } else {
                assert(r[k] == insert_by_name(init, x)[k]);
                if r[k] != x {
                    let m = choose|m: int| 0 <= m < init.len() && init[m] == insert_by_name(init, x)[k];
                    assert(s[m] == r[k]);
                }
            }
        }
    } else if s.len() > 0 {
        let r = insert_by_name(s, x);
        assert forall|k: int| 0 <= k < r.len() implies #[trigger] r[k] == x || exists|m: int|
            0 <= m < s.len() && s[m] == r[k] by {
            if k < s.len() {
                assert(s[k] == r[k]);
            }
        }
    }
}

proof fn lemma_insert_keeps_order(s: Seq<ServiceView>, x: ServiceView)
    requires
        is_sorted_by_name(s),
    ensures
        is_sorted_by_name(insert_by_name(s, x)),
    decreases s.len(),
{
    if s.len() == 0 {
    } else if name_lt(x.name, s.last().name) {
        let init = s.drop_last();
        let last = s.last();
        assert(is_sorted_by_name(init)) by {
            assert forall|i: int, j: int| 0 <= i < j < init.len() implies !name_lt(
                #[trigger] init[j].name,
                #[trigger] init[i].name,
            ) by {
                assert(init[i] == s[i] && init[j] == s[j]);
            }
        }
        lemma_insert_keeps_order(init, x);
        lemma_insert_elements(init, x);
        let part = insert_by_name(init, x);
        let r = part.push(last);
        assert forall|i: int, j: int| 0 <= i < j < r.len() implies !name_lt(
            #[trigger] r[j].name,
            #[trigger] r[i].name,
        ) by {
            if j == r.len() - 1 {
                assert(r[i] == part[i]);
                if part[i] == x {
                    if name_lt(last.name, x.name) {
                        lemma_name_lt_transitive(x.name, last.name, x.name);
                        lemma_name_lt_irreflexive(x.name);
                    }
                } else {
                    let m = choose|m: int| 0 <= m < init.len() && init[m] == part[i];
                    assert(s[m] == init[m]);
                    assert(!name_lt(s[s.len() - 1].name, s[m].name));
                }
            } else {
                assert(r[i] == part[i] && r[j] == part[j]);
            }
        }
    } else {
        let last = s.last();
        let r = s.push(x);
        assert forall|i: int, j: int| 0 <= i < j < r.len() implies !name_lt(
            #[trigger] r[j].name,
            #[trigger] r[i].name,
        ) by {
            if j == r.len() - 1 {
                if i < s.len() - 1 {
                    assert(!name_lt(s[s.len() - 1].name, s[i].name));
                    lemma_name_le_transitive(s[i].name, last.name, x.name);
                }
            } else {
                assert(r[i] == s[i] && r[j] == s[j]);
            }
        }
    }
}

proof fn lemma_sorted_by_name_is_sorted(s: Seq<ServiceView>)
    ensures
        is_sorted_by_name(sorted_by_name(s)),
    decreases s.len(),
{
    if s.len() > 0 {
        lemma_sorted_by_name_is_sorted(s.drop_last());
        lemma_insert_keeps_order(sorted_by_name(s.drop_last()), s.last());
    }
}

/// The service list is in order of name, whatever the commands printed.
pub proof fn service_list_is_sorted(units: Option<&str>, unit_files: Option<&str>)
    ensures
        is_sorted_by_name(service_list(units, unit_files)),
{
    let loaded = unit_entries(text_lines(units));
    lemma_sorted_by_name_is_sorted(loaded + file_entries(text_lines(unit_files), loaded));
}

pub open spec fn text_lines(t: Option<&str>) -> Seq<Seq<char>> {
    match t {
        Some(s) => lines(s@),
        None => seq![],
    }
}

/// The service list: the loaded units, then the unit files of no loaded
/// unit, sorted by name. A listing whose command could not run is `None`.
pub open spec fn service_list(units: Option<&str>, unit_files: Option<&str>) -> Seq<ServiceView> {
    let loaded = unit_entries(text_lines(units));
    sorted_by_name(loaded + file_entries(text_lines(unit_files), loaded))
}

pub fn name_less(a: &Vec<char>, b: &Vec<char>) -> (r: bool)
    ensures
        r == name_lt(a@, b@),
{
    let mut i: usize = 0;
    assert(a@.skip(0) =~= a@);
    assert(b@.skip(0) =~= b@);
    while i < a.len() && i < b.len() && a[i] == b[i]
        invariant
            i <= a@.len(),
            i <= b@.len(),
            name_lt(a@, b@) == name_lt(a@.skip(i as int), b@.skip(i as int)),
        decreases a@.len() - i,
    {
        assert(a@.skip(i as int).drop_first() =~= a@.skip(i + 1));
        assert(b@.skip(i as int).drop_first() =~= b@.skip(i + 1));
        i = i + 1;
    }
    if i == a.len() {
        i < b.len()
    } else if i == b.len() {
        false
    } else {
        a[i] < b[i]
    }
}

fn status_of(raw: &Vec<char>) -> (r: String)
    ensures
        r@ == nice_status(raw@),
{
    let t = string_of(raw);
    let s = t.as_str();
    if same_text(s, RUNNING_STATE) {
        ACTIVE_RUNNING.to_owned()
    } else if same_text(s, EXITED_STATE) {
        ACTIVE_EXITED.to_owned()
    } else if same_text(s, DEAD_STATE) {
        STOPPED.to_owned()
    } else if same_text(s, FAILED_STATE) {
        FAILED.to_owned()
    } else {
        t
    }
}

/// Joins `ws[from..]` with single spaces.
fn join_from(ws: &Vec<Vec<char>>, from: usize) -> (r: String)
    requires
        from <= ws@.len(),
    ensures
        r@ == joined(char_seqs(ws@).skip(from as int)),
{
    let ghost all = char_seqs(ws@).skip(from as int);
    let mut out: Vec<char> = Vec::new();
    let mut i: usize = from;
    assert(all.take(0) =~= Seq::<Seq<char>>::empty());
    while i < ws.len()
        invariant
            from <= i <= ws@.len(),
            all == char_seqs(ws@).skip(from as int),
            out@ == joined(all.take(i - from)),
        decreases ws@.len() - i,
    {
        let ghost t = all.take(i - from + 1);
        assert(t.drop_last() =~= all.take(i - from));
        assert(t.last() == ws@[i as int]@);
        if i > from {
            out.push(' ');
        }
        let w = &ws[i];
        let ghost base = out@;
        let mut j: usize = 0;
        while j < w.len()
            invariant
                j <= w@.len(),
                out@ == base + w@.take(j as int),
            decreases w@.len() - j,
        {
            out.push(w[j]);
            assert(w@.take(j + 1) =~= w@.take(j as int).push(w@[j as int]));
            assert(out@ =~= base + w@.take(j + 1));
            j = j + 1;
        }
        assert(w@.take(j as int) =~= w@);
        proof {
            if i == from {
                assert(t.len() == 1);
                assert(base =~= Seq::<char>::empty());
                assert(out@ =~= t[0]);
            }
        }
        i = i + 1;
    }
    assert(all.take(i - from) =~= all);
    string_of(&out)
}

fn unit_entry_of(l: &Vec<char>) -> (r: Option<Service>)
    ensures
        match r {
            Some(x) => unit_entry(l@) == Some(x@),
            None => unit_entry(l@) is None,
        },
{
    let w = words_of(l);
    assert(char_seqs(w@).len() == w@.len());
    if w.len() < 4 {
        return None;
    }
    assert(char_seqs(w@)[0] == w@[0]@);
    assert(char_seqs(w@)[3] == w@[3]@);
    if has_prefix(&w[0], DBUS_PREFIX) || has_prefix(&w[0], USER_PREFIX) {
        return None;
    }
    Some(Service { name: string_of(&w[0]), status: status_of(&w[3]), description: join_from(&w, 4) })
}

fn seen_name(seen: &Vec<Service>, upto: usize, name: &Vec<char>) -> (r: bool)
    requires
        upto <= seen@.len(),
    ensures
        r == named_in(service_views(seen@).take(upto as int), name@),
{
    let n = string_of(name);
    let mut i: usize = 0;
    while i < upto
        invariant
            upto <= seen@.len(),
            i <= upto,
            n@ == name@,
            forall|k: int| 0 <= k < i ==> seen@[k].name@ != name@,
        decreases seen@.len() - i,
    {
        if same_text(seen[i].name.as_str(), n.as_str()) {
            assert(service_views(seen@).take(upto as int)[i as int].name == name@);
            return true;
        }
        i = i + 1;
    }
    assert forall|k: int| 0 <= k < upto implies (#[trigger] service_views(seen@).take(
        upto as int,
    )[k]).name != name@ by {
        assert(service_views(seen@).take(upto as int)[k] == seen@[k]@);
    }
    false
}

fn file_entry_of(l: &Vec<char>, seen: &Vec<Service>, upto: usize) -> (r: Option<Service>)
    requires
        upto <= seen@.len(),
    ensures
        match r {
            Some(x) => file_entry(l@, service_views(seen@).take(upto as int)) == Some(x@),
            None => file_entry(l@, service_views(seen@).take(upto as int)) is None,
        },
{
    let w = words_of(l);
    assert(char_seqs(w@).len() == w@.len());
    if w.len() < 2 {
        return None;
    }
    assert(char_seqs(w@)[0] == w@[0]@);
    if seen_name(seen, upto, &w[0]) || has_prefix(&w[0], DBUS_PREFIX) || has_prefix(&w[0], USER_PREFIX) {
        return None;
    }
    Some(Service { name: string_of(&w[0]), status: STOPPED.to_owned(), description: NOT_LOADED.to_owned() })
}

fn insert_service(v: &mut Vec<Service>, x: Service)
    ensures
        service_views(final(v)@) == insert_by_name(service_views(old(v)@), x@),
{
    let ghost s = service_views(v@);
    let xn = chars_of(x.name.as_str());
    let mut k: usize = v.len();
    assert(s.take(k as int) =~= s);
    assert(s.skip(k as int) =~= Seq::<ServiceView>::empty());
    while k > 0 && name_less(&xn, &chars_of(v[k - 1].name.as_str()))
        invariant
            k <= v@.len(),
            s == service_views(v@),
            xn@ == x.name@,
            insert_by_name(s, x@) == insert_by_name(s.take(k as int), x@) + s.skip(k as int),
        decreases k,
    {
        let ghost t = s.take(k as int);
        assert(t.drop_last() =~= s.take(k - 1));
        assert(t.last() == s[k - 1]);
        assert(s.skip(k - 1) =~= seq![s[k - 1]] + s.skip(k as int));
        assert(insert_by_name(t, x@) == insert_by_name(s.take(k - 1), x@).push(s[k - 1]));
        assert(insert_by_name(s.take(k - 1), x@).push(s[k - 1]) + s.skip(k as int)
            =~= insert_by_name(s.take(k - 1), x@) + s.skip(k - 1));
        k = k - 1;
    }
    v.insert(k, x);
    proof {
        if k == 0 {
            assert(s.take(0) =~= Seq::<ServiceView>::empty());
        }
        assert(insert_by_name(s.take(k as int), x@) == s.take(k as int).push(x@));
        assert(service_views(v@) =~= s.take(k as int).push(x@) + s.skip(k as int));
    }
}

/// Builds the service list from the output of `systemctl list-units
/// --type=service --all --plain --full --no-legend` and of `systemctl
/// list-unit-files --type=service --plain --no-legend` (`None` for a command
/// that could not run).
pub fn list_services_from(units: Option<&str>, unit_files: Option<&str>) -> (r: Vec<Service>)
    ensures
        service_views(r@) == service_list(units, unit_files),
{
    let mut collected: Vec<Service> = Vec::new();
    if let Some(u) = units {
        let ls = lines_of(&chars_of(u));
        let ghost all = char_seqs(ls@);
        let mut i: usize = 0;
        assert(all.take(0) =~= Seq::<Seq<char>>::empty());
        while i < ls.len()
            invariant
                i <= ls@.len(),
                all == char_seqs(ls@),
                service_views(collected@) == unit_entries(all.take(i as int)),
            decreases ls@.len() - i,
        {
            let ghost t = all.take(i + 1);
            assert(t.drop_last() =~= all.take(i as int));
            assert(t.last() == ls@[i as int]@);
            let ghost before = service_views(collected@);
            if let Some(e) = unit_entry_of(&ls[i]) {
                collected.push(e);
                assert(service_views(collected@) =~= before.push(e@));
            }
            i = i + 1;
        }
        assert(all.take(i as int) =~= all);
    } else {
        assert(service_views(collected@) =~= unit_entries(text_lines(units)));
    }
    let ghost loaded = service_views(collected@);
    let n_loaded = collected.len();
    if let Some(f) = unit_files {
        let ls = lines_of(&chars_of(f));
        let ghost all = char_seqs(ls@);
        let mut i: usize = 0;
        assert(all.take(0) =~= Seq::<Seq<char>>::empty());
        assert(service_views(collected@) =~= loaded + file_entries(all.take(0), loaded));
        while i < ls.len()
            invariant
                i <= ls@.len(),
                all == char_seqs(ls@),
                n_loaded <= collected@.len(),
                service_views(collected@).take(n_loaded as int) == loaded,
                loaded.len() == n_loaded,
                service_views(collected@) == loaded + file_entries(all.take(i as int), loaded),
            decreases ls@.len() - i,
        {
            let ghost t = all.take(i + 1);
            assert(t.drop_last() =~= all.take(i as int));
            assert(t.last() == ls@[i as int]@);
            let ghost before = service_views(collected@);
            if let Some(e) = file_entry_of(&ls[i], &collected, n_loaded) {
                collected.push(e);
                assert(service_views(collected@) =~= before.push(e@));
            }
            assert(service_views(collected@).take(n_loaded as int) =~= loaded);
            i = i + 1;
        }
        assert(all.take(i as int) =~= all);
    } else {
        assert(service_views(collected@) =~= loaded + file_entries(text_lines(unit_files), loaded));
    }
    let ghost full = service_views(collected@);
    let mut sorted: Vec<Service> = Vec::new();
    let mut rest = collected;
    let mut i: usize = 0;
    let n = rest.len();
    assert(full.take(0) =~= Seq::<ServiceView>::empty());
    while i < n
        invariant
            n == full.len(),
            i <= n,
            rest@.len() == n - i,
            service_views(rest@) == full.skip(i as int),
            service_views(sorted@) == sorted_by_name(full.take(i as int)),
        decreases n - i,
    {
        let ghost old_rest = rest@;
        let x = rest.remove(0);
        assert(x == old_rest[0]);
        assert(rest@ =~= old_rest.subrange(1, old_rest.len() as int));
        assert(x@ == service_views(old_rest)[0]);
        assert(full.take(i + 1).drop_last() =~= full.take(i as int));
        assert(full.take(i + 1).last() == full[i as int]);
        assert forall|k: int| 0 <= k < rest@.len() implies #[trigger] service_views(rest@)[k]
            == full.skip(i + 1)[k] by {
            assert(rest@[k] == old_rest[k + 1]);
            assert(service_views(old_rest)[k + 1] == full.skip(i as int)[k + 1]);
        }
        assert(service_views(rest@) =~= full.skip(i + 1));
        insert_service(&mut sorted, x);
        i = i + 1;
    }
    assert(full.take(n as int) =~= full);
    sorted
}

} // verus!
