//! Package managers: which one the host has, and the package listings read
//! from their output.
use vstd::prelude::*;
use crate::text::{string_seqs, char_seqs, chars_of, has_prefix, lines, lines_of, starts_with, string_of, words, words_of};

verus! {

#[derive(PartialEq, Eq, Structural, Clone, Copy, Debug)]
pub enum ManagerType {
    Apt,
    Dnf,
    Pacman,
    Unknown,
}

/// A request that names one package.
#[derive(Clone, Debug, PartialEq, Eq)]
pub struct PackageAction {
    pub name: String,
}

/// A listed package: its name, its version and whether it is installed or
/// upgradable.
#[derive(Clone, Debug, PartialEq, Eq)]
pub struct Package {
    pub name: String,
    pub version: String,
    pub status: String,
}

pub struct PackageView {
    pub name: Seq<char>,
    pub version: Seq<char>,
    pub status: Seq<char>,
}

impl View for Package {
    type V = PackageView;

    open spec fn view(&self) -> PackageView {
        PackageView { name: self.name@, version: self.version@, status: self.status@ }
    }
}

pub open spec fn package_views(v: Seq<Package>) -> Seq<PackageView> {
    v.map_values(|p: Package| p@)
}

/// What a finished command left: whether it succeeded, its exit code (none
/// when a signal ended it) and its output, decoded as UTF-8.
#[derive(Clone, Debug, PartialEq, Eq)]
pub struct CommandOutput {
    pub success: bool,
    pub code: Option<i32>,
    pub stdout: String,
    pub stderr: String,
}

/// The listings this module reads, each from one manager's command.
#[derive(PartialEq, Eq, Structural, Clone, Copy, Debug)]
pub enum Listing {
    /// `pacman -Qu`
    PacmanUpgradable,
    /// `apt list --upgradable`
    AptUpgradable,
    /// `dnf check-update`
    DnfUpgradable,
    /// `pacman -Q`
    PacmanInstalled,
    /// `dpkg-query -W -f='${binary:Package} ${Version}\n'`
    AptInstalled,
    /// `dnf list installed -q`
    DnfInstalled,
}

pub const LATEST_VERSION: &'static str = "latest";

pub const UPGRADABLE: &'static str = "upgradable";

pub const INSTALLED: &'static str = "installed";

pub const NO_MANAGER_MESSAGE: &'static str = "No supported package manager found (pacman, apt, dnf)";

pub const DNF_METADATA_NOTE: &'static str = "Last metadata expiration check";

pub const DNF_OBSOLETING_NOTE: &'static str = "Obsoleting Packages";

pub const DNF_INSTALLED_HEADER: &'static str = "Installed Packages";

/// Chooses the first manager found, in the order apt, dnf, pacman.
pub fn pick_manager(has_apt_get: bool, has_dnf: bool, has_pacman: bool) -> (m: ManagerType)
    ensures
        m == (if has_apt_get {
            ManagerType::Apt
        } else if has_dnf {
            ManagerType::Dnf
        } else if has_pacman {
            ManagerType::Pacman
        } else {
            ManagerType::Unknown
        }),
{
    if has_apt_get {
        ManagerType::Apt
    } else if has_dnf {
        ManagerType::Dnf
    } else if has_pacman {
        ManagerType::Pacman
    } else {
        ManagerType::Unknown
    }
}

pub open spec fn is_first(s: Seq<char>, sep: char, k: int) -> bool {
    &&& 0 <= k < s.len()
    &&& s[k] == sep
    &&& forall|j: int| 0 <= j < k ==> s[j] != sep
}

/// What comes before the first `sep` in `s`; all of `s` when there is none.
pub open spec fn before_first(s: Seq<char>, sep: char) -> Seq<char> {
    if exists|k: int| is_first(s, sep, k) {
        s.take(choose|k: int| is_first(s, sep, k))
    } else {
        s
    }
}

/// The package one line of a listing describes, if any.
pub open spec fn entry(f: Listing, l: Seq<char>) -> Option<PackageView> {
    let w = words(l);
    match f {
        Listing::PacmanUpgradable => if w.len() >= 1 {
            Some(
                PackageView {
                    name: w[0],
                    version: if w.len() >= 4 {
                        w[3]
                    } else {
                        LATEST_VERSION@
                    },
                    status: UPGRADABLE@,
                },
            )
        } else {
            None
        },
        Listing::AptUpgradable => if w.len() >= 2 {
            Some(PackageView { name: before_first(w[0], '/'), version: w[1], status: UPGRADABLE@ })
        } else {
            None
        },
        Listing::DnfUpgradable => if !starts_with(l, DNF_METADATA_NOTE@) && !starts_with(
            l,
            DNF_OBSOLETING_NOTE@,
        ) && w.len() >= 2 {
            Some(PackageView { name: w[0], version: w[1], status: UPGRADABLE@ })
        } else {
            None
        },
        Listing::PacmanInstalled | Listing::AptInstalled => if w.len() >= 2 {
            Some(PackageView { name: w[0], version: w[1], status: INSTALLED@ })
        } else {
            None
        },
        Listing::DnfInstalled => if !starts_with(l, DNF_INSTALLED_HEADER@) && w.len() >= 2 {
            Some(PackageView { name: before_first(w[0], '.'), version: w[1], status: INSTALLED@ })
        } else {
            None
        },
    }
}

/// The packages the lines `ls` describe, in order.
pub open spec fn entries(f: Listing, ls: Seq<Seq<char>>) -> Seq<PackageView>
    decreases ls.len(),
{
    if ls.len() == 0 {
        seq![]
    } else {
        match entry(f, ls.last()) {
            Some(p) => entries(f, ls.drop_last()).push(p),
            None => entries(f, ls.drop_last()),
        }
    }
}

/// The lines of a listing that describe packages: `apt list` opens with a
/// header line.
pub open spec fn listed_lines(f: Listing, stdout: Seq<char>) -> Seq<Seq<char>> {
    let ls = lines(stdout);
    if f == Listing::AptUpgradable && ls.len() > 0 {
        ls.drop_first()
    } else {
        ls
    }
}

/// The packages of a listing, or the command's error output when the command
/// failed. `pacman -Qu` exits with 1 when nothing is upgradable; `dnf
/// check-update` exits with 0 when nothing is, and with 100 when it lists
/// upgrades.
pub open spec fn listing_outcome(f: Listing, success: bool, code: Option<i32>, stdout: Seq<char>, stderr: Seq<char>) -> Result<Seq<PackageView>, Seq<char>> {
    let found = entries(f, listed_lines(f, stdout));
    match f {
        Listing::PacmanUpgradable => if success {
            Ok(found)
        } else if code == Some(1i32) {
            Ok(seq![])
        } else {
            Err(stderr)
        },
        Listing::DnfUpgradable => if code == Some(0i32) {
            Ok(seq![])
        } else if code != Some(100i32) {
            Err(stderr)
        } else {
            Ok(found)
        },
        _ => if success {
            Ok(found)
        } else {
            Err(stderr)
        },
    }
}

pub open spec fn listing_view(r: Result<Vec<Package>, String>) -> Result<Seq<PackageView>, Seq<char>> {
    match r {
        Ok(v) => Ok(package_views(v@)),
        Err(e) => Err(e@),
    }
}

pub fn first_before(s: &Vec<char>, sep: char) -> (r: String)
    ensures
        r@ == before_first(s@, sep),
{
    let mut i: usize = 0;
    while i < s.len() && s[i] != sep
        invariant
            i <= s@.len(),
            forall|j: int| 0 <= j < i ==> s@[j] != sep,
        decreases s@.len() - i,
    {
        i = i + 1;
    }
    if i == s.len() {
        assert(!exists|k: int| is_first(s@, sep, k));
        string_of(s)
    } else {
        assert(is_first(s@, sep, i as int));
        proof {
            let k = choose|k: int| is_first(s@, sep, k);
            if k < i {
                assert(s@[k] != sep);
            } else if k > i {
                assert(s@[i as int] != sep);
            }
        }
        let mut p: Vec<char> = Vec::new();
        let mut j: usize = 0;
        while j < i
            invariant
                i < s@.len(),
                j <= i,
                p@ == s@.take(j as int),
            decreases i - j,
        {
            p.push(s[j]);
            assert(s@.take(j + 1) =~= s@.take(j as int).push(s@[j as int]));
            j = j + 1;
        }
        string_of(&p)
    }
}

/// Reads the package that one line of a listing describes.
pub fn entry_of(f: Listing, l: &Vec<char>) -> (r: Option<Package>)
    ensures
        match r {
            Some(p) => entry(f, l@) == Some(p@),
            None => entry(f, l@) is None,
        },
{
    let w = words_of(l);
    assert(char_seqs(w@).len() == w@.len());
    match f {
        Listing::PacmanUpgradable => {
            if w.len() >= 1 {
                assert(char_seqs(w@)[0] == w@[0]@);
                let version = if w.len() >= 4 {
                    assert(char_seqs(w@)[3] == w@[3]@);
                    string_of(&w[3])
                } else {
                    LATEST_VERSION.to_owned()
                };
                Some(Package { name: string_of(&w[0]), version, status: UPGRADABLE.to_owned() })
            } else {
                None
            }
        },
        Listing::AptUpgradable => {
            if w.len() >= 2 {
                assert(char_seqs(w@)[0] == w@[0]@);
                assert(char_seqs(w@)[1] == w@[1]@);
                Some(Package { name: first_before(&w[0], '/'), version: string_of(&w[1]), status: UPGRADABLE.to_owned() })
            } else {
                None
            }
        },
        Listing::DnfUpgradable => {
            if !has_prefix(l, DNF_METADATA_NOTE) && !has_prefix(l, DNF_OBSOLETING_NOTE) && w.len() >= 2 {
                assert(char_seqs(w@)[0] == w@[0]@);
                assert(char_seqs(w@)[1] == w@[1]@);
                Some(Package { name: string_of(&w[0]), version: string_of(&w[1]), status: UPGRADABLE.to_owned() })
            } else {
                None
            }
        },
        Listing::PacmanInstalled | Listing::AptInstalled => {
            if w.len() >= 2 {
                assert(char_seqs(w@)[0] == w@[0]@);
                assert(char_seqs(w@)[1] == w@[1]@);
                Some(Package { name: string_of(&w[0]), version: string_of(&w[1]), status: INSTALLED.to_owned() })
            } else {
                None
            }
        },
        Listing::DnfInstalled => {
            if !has_prefix(l, DNF_INSTALLED_HEADER) && w.len() >= 2 {
                assert(char_seqs(w@)[0] == w@[0]@);
                assert(char_seqs(w@)[1] == w@[1]@);
                Some(Package { name: first_before(&w[0], '.'), version: string_of(&w[1]), status: INSTALLED.to_owned() })
            } else {
                None
            }
        },
    }
}

/// Reads the packages a listing's output describes.
pub fn packages_of(f: Listing, stdout: &str) -> (r: Vec<Package>)
    ensures
        package_views(r@) == entries(f, listed_lines(f, stdout@)),
{
    let cs = chars_of(stdout);
    let ls = lines_of(&cs);
    let start: usize = if f == Listing::AptUpgradable && ls.len() > 0 {
        1
    } else {
        0
    };
    let ghost listed = char_seqs(ls@).skip(start as int);
    assert(listed =~= listed_lines(f, stdout@));
    let mut out: Vec<Package> = Vec::new();
    let mut i: usize = start;
    assert(listed.take(0) =~= Seq::<Seq<char>>::empty());
    while i < ls.len()
        invariant
            start <= i <= ls@.len(),
            listed == char_seqs(ls@).skip(start as int),
            package_views(out@) == entries(f, listed.take(i - start)),
        decreases ls@.len() - i,
    {
        let ghost t = listed.take(i - start + 1);
        assert(t.drop_last() =~= listed.take(i - start));
        assert(t.last() == ls@[i as int]@);
        let ghost before = package_views(out@);
        match entry_of(f, &ls[i]) {
            Some(p) => {
                out.push(p);
                assert(package_views(out@) =~= before.push(p@));
            },
            None => {},
        }
        i = i + 1;
    }
    assert(listed.take(i - start) =~= listed);
    out
}

/// The packages of a listing, or the command's error output when it failed.
pub fn parse_listing(f: Listing, out: &CommandOutput) -> (r: Result<Vec<Package>, String>)
    ensures
        listing_view(r) == listing_outcome(f, out.success, out.code, out.stdout@, out.stderr@),
{
    match f {
        Listing::PacmanUpgradable => {
            if out.success {
                Ok(packages_of(f, out.stdout.as_str()))
            } else if out.code == Some(1i32) {
                let v: Vec<Package> = Vec::new();
                assert(package_views(v@) =~= Seq::<PackageView>::empty());
                Ok(v)
            } else {
                Err(out.stderr.clone())
            }
        },
        Listing::DnfUpgradable => {
            if out.code == Some(0i32) {
                let v: Vec<Package> = Vec::new();
                assert(package_views(v@) =~= Seq::<PackageView>::empty());
                Ok(v)
            } else if out.code != Some(100i32) {
                Err(out.stderr.clone())
            } else {
                Ok(packages_of(f, out.stdout.as_str()))
            }
        },
        _ => {
            if out.success {
                Ok(packages_of(f, out.stdout.as_str()))
            } else {
                Err(out.stderr.clone())
            }
        },
    }
}

/// The listing of upgradable packages each manager gives.
pub open spec fn upgradable_listing(m: ManagerType) -> Option<Listing> {
    match m {
        ManagerType::Pacman => Some(Listing::PacmanUpgradable),
        ManagerType::Apt => Some(Listing::AptUpgradable),
        ManagerType::Dnf => Some(Listing::DnfUpgradable),
        ManagerType::Unknown => None,
    }
}

/// The listing of installed packages each manager gives.
pub open spec fn installed_listing(m: ManagerType) -> Option<Listing> {
    match m {
        ManagerType::Pacman => Some(Listing::PacmanInstalled),
        ManagerType::Apt => Some(Listing::AptInstalled),
        ManagerType::Dnf => Some(Listing::DnfInstalled),
        ManagerType::Unknown => None,
    }
}

pub fn upgradable_listing_of(m: ManagerType) -> (r: Option<Listing>)
    ensures
        r == upgradable_listing(m),
{
    match m {
        ManagerType::Pacman => Some(Listing::PacmanUpgradable),
        ManagerType::Apt => Some(Listing::AptUpgradable),
        ManagerType::Dnf => Some(Listing::DnfUpgradable),
        ManagerType::Unknown => None,
    }
}

pub fn installed_listing_of(m: ManagerType) -> (r: Option<Listing>)
    ensures
        r == installed_listing(m),
{
    match m {
        ManagerType::Pacman => Some(Listing::PacmanInstalled),
        ManagerType::Apt => Some(Listing::AptInstalled),
        ManagerType::Dnf => Some(Listing::DnfInstalled),
        ManagerType::Unknown => None,
    }
}

/// How many upgradable packages a listing run reported: 0 when there is no
/// manager, the command could not run or it failed.
pub open spec fn upgradable_count(m: ManagerType, run: Result<(bool, Option<i32>, Seq<char>, Seq<char>), Seq<char>>) -> u32 {
    match upgradable_listing(m) {
        None => 0,
        Some(f) => match run {
            Err(_) => 0,
            Ok(out) => match listing_outcome(f, out.0, out.1, out.2, out.3) {
                Ok(ps) => ps.len() as u32,
                Err(_) => 0,
            },
        },
    }
}

pub open spec fn run_view(run: &Result<CommandOutput, String>) -> Result<(bool, Option<i32>, Seq<char>, Seq<char>), Seq<char>> {
    match run {
        Ok(out) => Ok((out.success, out.code, out.stdout@, out.stderr@)),
        Err(e) => Err(e@),
    }
}

/// Counts the upgradable packages that the manager's listing command
/// reported; `run` is that command's output, or why it could not be run.
pub fn count_upgradable_packages(manager: ManagerType, run: &Result<CommandOutput, String>) -> (r: u32)
    ensures
        r == upgradable_count(manager, run_view(run)),
{
    match upgradable_listing_of(manager) {
        None => 0,
        Some(f) => match run {
            Err(_) => 0,
            Ok(out) => match parse_listing(f, out) {
                Ok(ps) => {
                    assert(package_views(ps@).len() == ps@.len());
                    ps.len() as u32
                },
                Err(_) => 0,
            },
        },
    }
}

/// What a package command is for.
#[derive(PartialEq, Eq, Structural, Clone, Copy, Debug)]
pub enum PackageOp {
    ListUpgradable,
    ListInstalled,
    Upgrade,
    Install,
    Remove,
    RemoveDryRun,
    UpdateAll,
}

/// The command line, program first, that performs `op` under manager `m`
/// on the package `name` (which `ListUpgradable`, `ListInstalled` and
/// `UpdateAll` do not use); `None` when there is no manager.
pub open spec fn package_argv(m: ManagerType, op: PackageOp, name: Seq<char>) -> Option<Seq<Seq<char>>> {
    match m {
        ManagerType::Pacman => Some(
            match op {
                PackageOp::ListUpgradable => seq!["pacman"@, "-Qu"@],
                PackageOp::ListInstalled => seq!["pacman"@, "-Q"@],
                PackageOp::Upgrade => seq!["pacman"@, "-S"@, "--noconfirm"@, name],
                PackageOp::Install => seq!["pacman"@, "-S"@, "--noconfirm"@, name],
                PackageOp::Remove => seq!["pacman"@, "-Rns"@, "--noconfirm"@, name],
                PackageOp::RemoveDryRun => seq!["pacman"@, "-Rns"@, name, "-p"@],
                PackageOp::UpdateAll => seq!["pacman"@, "-Syu"@, "--noconfirm"@],
            },
        ),
        ManagerType::Apt => Some(
            match op {
                PackageOp::ListUpgradable => seq!["apt"@, "list"@, "--upgradable"@],
                PackageOp::ListInstalled => seq![
                    "dpkg-query"@,
                    "-W"@,
                    "-f=${binary:Package} ${Version}\n"@,
                ],
                PackageOp::Upgrade => seq!["apt-get"@, "install"@, "-y"@, "--only-upgrade"@, name],
                PackageOp::Install => seq!["apt-get"@, "install"@, "-y"@, name],
                PackageOp::Remove => seq!["apt-get"@, "remove"@, "-y"@, name],
                PackageOp::RemoveDryRun => seq!["apt-get"@, "remove"@, "-s"@, name],
                PackageOp::UpdateAll => seq!["apt-get"@, "upgrade"@, "-y"@],
            },
        ),
        ManagerType::Dnf => Some(
            match op {
                PackageOp::ListUpgradable => seq!["dnf"@, "check-update"@],
                PackageOp::ListInstalled => seq!["dnf"@, "list"@, "installed"@, "-q"@],
                PackageOp::Upgrade => seq!["dnf"@, "upgrade"@, "-y"@, name],
                PackageOp::Install => seq!["dnf"@, "install"@, "-y"@, name],
                PackageOp::Remove => seq!["dnf"@, "remove"@, "-y"@, name],
                PackageOp::RemoveDryRun => seq!["dnf"@, "remove"@, name, "--assumeno"@],
                PackageOp::UpdateAll => seq!["dnf"@, "upgrade"@, "-y"@],
            },
        ),
        ManagerType::Unknown => None,
    }
}

fn owned_words(ws: &[&str]) -> (r: Vec<String>)
    ensures
        string_seqs(r@) == ws@.map_values(|w: &str| w@),
{
    let mut r: Vec<String> = Vec::new();
    let mut i: usize = 0;
    while i < ws.len()
        invariant
            i <= ws@.len(),
            string_seqs(r@) == ws@.take(i as int).map_values(|w: &str| w@),
        decreases ws@.len() - i,
    {
        let ghost before = string_seqs(r@);
        r.push(ws[i].to_owned());
        assert(string_seqs(r@) =~= before.push(ws@[i as int]@));
        assert(ws@.take(i + 1).map_values(|w: &str| w@) =~= ws@.take(i as int).map_values(
            |w: &str| w@,
        ).push(ws@[i as int]@));
        i = i + 1;
    }
    assert(ws@.take(i as int) =~= ws@);
    r
}

/// Builds the command line that performs `op` under `manager`.
pub fn package_command(manager: ManagerType, op: PackageOp, name: &str) -> (r: Option<Vec<String>>)
    ensures
        match r {
            Some(v) => package_argv(manager, op, name@) == Some(string_seqs(v@)),
            None => package_argv(manager, op, name@) is None,
        },
{
    let words: Vec<&str> = match manager {
        ManagerType::Pacman => match op {
            PackageOp::ListUpgradable => vec!["pacman", "-Qu"],
            PackageOp::ListInstalled => vec!["pacman", "-Q"],
            PackageOp::Upgrade => vec!["pacman", "-S", "--noconfirm", name],
            PackageOp::Install => vec!["pacman", "-S", "--noconfirm", name],
            PackageOp::Remove => vec!["pacman", "-Rns", "--noconfirm", name],
            PackageOp::RemoveDryRun => vec!["pacman", "-Rns", name, "-p"],
            PackageOp::UpdateAll => vec!["pacman", "-Syu", "--noconfirm"],
        },
        ManagerType::Apt => match op {
            PackageOp::ListUpgradable => vec!["apt", "list", "--upgradable"],
            PackageOp::ListInstalled => vec!["dpkg-query", "-W", "-f=${binary:Package} ${Version}\n"],
            PackageOp::Upgrade => vec!["apt-get", "install", "-y", "--only-upgrade", name],
            PackageOp::Install => vec!["apt-get", "install", "-y", name],
            PackageOp::Remove => vec!["apt-get", "remove", "-y", name],
            PackageOp::RemoveDryRun => vec!["apt-get", "remove", "-s", name],
            PackageOp::UpdateAll => vec!["apt-get", "upgrade", "-y"],
        },
        ManagerType::Dnf => match op {
            PackageOp::ListUpgradable => vec!["dnf", "check-update"],
            PackageOp::ListInstalled => vec!["dnf", "list", "installed", "-q"],
            PackageOp::Upgrade => vec!["dnf", "upgrade", "-y", name],
            PackageOp::Install => vec!["dnf", "install", "-y", name],
            PackageOp::Remove => vec!["dnf", "remove", "-y", name],
            PackageOp::RemoveDryRun => vec!["dnf", "remove", name, "--assumeno"],
            PackageOp::UpdateAll => vec!["dnf", "upgrade", "-y"],
        },
        ManagerType::Unknown => return None,
    };
    let r = owned_words(words.as_slice());
    assert(words@.map_values(|w: &str| w@) =~= package_argv(manager, op, name@).unwrap());
    Some(r)
}

} // verus!
