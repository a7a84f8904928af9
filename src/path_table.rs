use vstd::prelude::*;

use crate::text::{split_at_char, split_on, str_eq, string_views};

verus! {

/// One entry of a directory listing: its file name, its full path, and
/// whether it is a regular file.
#[derive(Debug, PartialEq, Eq)]
pub struct DirEntry {
    pub name: String,
    pub path: String,
    pub is_file: bool,
}

pub open spec fn entry_views(es: Seq<DirEntry>) -> Seq<(Seq<char>, Seq<char>, bool)> {
    es.map_values(|e: DirEntry| (e.name@, e.path@, e.is_file))
}

/// The path of the first regular file called `name` in `es`.
pub open spec fn first_file(es: Seq<(Seq<char>, Seq<char>, bool)>, name: Seq<char>) -> Option<
    Seq<char>,
>
    decreases es.len(),
{
    if es.len() == 0 {
        None
    } else {
        match first_file(es.drop_last(), name) {
            Some(p) => Some(p),
            None => if es.last().2 && es.last().0 == name {
                Some(es.last().1)
            } else {
                None
            },
        }
    }
}

/// The path paired with the first occurrence of `name` in `t`.
pub open spec fn find_path(t: Seq<(Seq<char>, Seq<char>)>, name: Seq<char>) -> Option<Seq<char>>
    decreases t.len(),
{
    if t.len() == 0 {
        None
    } else {
        match find_path(t.drop_last(), name) {
            Some(p) => Some(p),
            None => if t.last().0 == name {
                Some(t.last().1)
            } else {
                None
            },
        }
    }
}

pub open spec fn opt_view(o: Option<String>) -> Option<Seq<char>> {
    match o {
        Some(s) => Some(s@),
        None => None,
    }
}

/// The search path named by the `PATH` value `var`, or the default one.
pub open spec fn search_dirs_of(var: Option<Seq<char>>) -> Seq<Seq<char>> {
    match var {
        Some(v) => split_on(v, ':'),
        None => split_on("/bin:/usr/bin"@, ':'),
    }
}

pub proof fn lemma_find_path_none(t: Seq<(Seq<char>, Seq<char>)>, name: Seq<char>)
    ensures
        find_path(t, name) is None <==> forall|k: int| 0 <= k < t.len() ==> t[k].0 != name,
    decreases t.len(),
{
    if t.len() > 0 {
        lemma_find_path_none(t.drop_last(), name);
        assert forall|k: int| 0 <= k < t.len() - 1 implies t[k] == t.drop_last()[k] by {}
    }
}

proof fn lemma_find_path_prefix(t: Seq<(Seq<char>, Seq<char>)>, j: int, name: Seq<char>)
    requires
        0 <= j <= t.len(),
        find_path(t.take(j), name) is Some,
    ensures
        find_path(t, name) == find_path(t.take(j), name),
    decreases t.len() - j,
{
    if j < t.len() {
        assert(t.take(j + 1).drop_last() =~= t.take(j));
        lemma_find_path_prefix(t, j + 1, name);
    } else {
        assert(t.take(j) =~= t);
    }
}

/// Executable names and where they live: the first regular file of each
/// name across the search directories, in order.
pub struct PathTable {
    entries: Vec<(String, String)>,
}

impl View for PathTable {
    type V = Seq<(Seq<char>, Seq<char>)>;

    closed spec fn view(&self) -> Seq<(Seq<char>, Seq<char>)> {
        self.entries@.map_values(|p: (String, String)| (p.0@, p.1@))
    }
}

impl PathTable {
    /// Each name occurs once.
    pub open spec fn wf(&self) -> bool {
        forall|i: int, j: int| 0 <= i < j < self@.len() ==> self@[i].0 != self@[j].0
    }

    /// The table with no programs in it.
    pub fn new() -> (r: PathTable)
        ensures
            r.wf(),
            r@ == Seq::<(Seq<char>, Seq<char>)>::empty(),
    {
        let r = PathTable { entries: Vec::new() };
        assert(r@ =~= Seq::<(Seq<char>, Seq<char>)>::empty());
        r
    }

    /// Builds the table from the listings of the search directories, in
    /// search order: a name maps to the first regular file that bears it.
    pub fn from_entries(entries: &Vec<DirEntry>) -> (r: PathTable)
        ensures
            r.wf(),
            forall|name: Seq<char>| #[trigger]
                find_path(r@, name) == first_file(entry_views(entries@), name),
    {
        let mut table = PathTable::new();
        let ghost es = entry_views(entries@);
        let mut i: usize = 0;
        while i < entries.len()
            invariant
                i <= entries@.len(),
                es == entry_views(entries@),
                table.wf(),
                forall|name: Seq<char>| #[trigger]
                    find_path(table@, name) == first_file(es.take(i as int), name),
            decreases entries@.len() - i,
        {
            let e = &entries[i];
            let ghost prev = es.take(i as int);
            let ghost next = es.take(i + 1);
            assert(next.drop_last() =~= prev);
            assert(next.last() == (e.name@, e.path@, e.is_file));
            let known = table.lookup(e.name.as_str());
            if e.is_file && known.is_none() {
                let ghost old_t = table@;
                proof {
                    lemma_find_path_none(old_t, e.name@);
                }
                table.entries.push((e.name.clone(), e.path.clone()));
                assert(table@ =~= old_t.push((e.name@, e.path@)));
                assert(table@.drop_last() =~= old_t);
                assert forall|name: Seq<char>| #[trigger]
                    find_path(table@, name) == first_file(next, name) by {
                    assert(find_path(old_t, name) == first_file(prev, name));
                }
            } else {
                assert forall|name: Seq<char>| #[trigger]
                    find_path(table@, name) == first_file(next, name) by {
                    assert(find_path(table@, name) == first_file(prev, name));
                }
            }
            i = i + 1;
        }
        assert(es.take(entries@.len() as int) =~= es);
        table
    }

    /// The path of the program called `name`, if the table has one.
    pub fn lookup(&self, name: &str) -> (r: Option<String>)
        ensures
            opt_view(r) == find_path(self@, name@),
    {
        let mut k: usize = 0;
        proof {
            assert(self@.take(0) =~= Seq::<(Seq<char>, Seq<char>)>::empty());
        }
        while k < self.entries.len()
            invariant
                k <= self@.len(),
                self@.len() == self.entries@.len(),
                find_path(self@.take(k as int), name@) is None,
            decreases self@.len() - k,
        {
            assert(self@[k as int] == (self.entries@[k as int].0@, self.entries@[k as int].1@));
            assert(self@.take(k + 1).drop_last() =~= self@.take(k as int));
            if str_eq(self.entries[k].0.as_str(), name) {
                proof {
                    lemma_find_path_prefix(self@, k + 1, name@);
                }
                return Some(self.entries[k].1.clone());
            }
            k = k + 1;
        }
        assert(self@.take(k as int) =~= self@);
        None
    }
}

/// The directories to search: `var` (the value of `PATH`) cut at every
/// colon, or `/bin:/usr/bin` where it is unset.
pub fn search_dirs(var: Option<String>) -> (r: Vec<String>)
    ensures
        string_views(r@) == search_dirs_of(opt_view(var)),
{
    match var {
        Some(v) => split_at_char(v.as_str(), ':'),
        None => split_at_char("/bin:/usr/bin", ':'),
    }
}

} // verus!
