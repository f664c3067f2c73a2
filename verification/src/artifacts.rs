//! Artifact discovery: which entries of an output directory are executables,
//! in which order they are taken, and where each is copied to.

use crate::compiler::{file_name, file_name_of, join_path, joined};
use crate::messages::DirEntry;
use crate::text::{to_chars, views};
use vstd::prelude::*;
use vstd::string::*;

verus! {

/// The permission bits that make a file executable for anyone.
pub const EXECUTABLE_BITS: u32 = 0o111;

/// One artifact to copy.
#[derive(Clone, Debug, PartialEq, Eq)]
pub struct CopyJob {
    pub from: String,
    pub to: String,
}

/// A copy job over plain values.
pub struct CopyJobView {
    pub from: Seq<char>,
    pub to: Seq<char>,
}

impl View for CopyJob {
    type V = CopyJobView;

    open spec fn view(&self) -> CopyJobView {
        CopyJobView { from: self.from@, to: self.to@ }
    }
}

/// The views of a sequence of copy jobs.
pub open spec fn job_views(v: Seq<CopyJob>) -> Seq<CopyJobView> {
    v.map_values(|j: CopyJob| j@)
}

/// `a` stands before `b`, or is `b`, in the order of a dictionary whose
/// alphabet is the code points.
pub open spec fn text_le(a: Seq<char>, b: Seq<char>) -> bool
    decreases a.len(),
{
    if a.len() == 0 {
        true
    } else if b.len() == 0 {
        false
    } else if a[0] != b[0] {
        a[0] < b[0]
    } else {
        text_le(a.drop_first(), b.drop_first())
    }
}

/// Each entry stands before, or is, every later one.
pub open spec fn ordered(s: Seq<Seq<char>>) -> bool {
    forall|i: int, j: int| 0 <= i < j < s.len() ==> text_le(s[i], s[j])
}

/// `s`, which is ordered, with `x` put in its place.
pub open spec fn inserted(s: Seq<Seq<char>>, x: Seq<char>) -> Seq<Seq<char>>
    decreases s.len(),
{
    if s.len() == 0 {
        seq![x]
    } else if text_le(s.last(), x) {
        s.push(x)
    } else {
        inserted(s.drop_last(), x).push(s.last())
    }
}

/// The entries in order.
pub open spec fn in_order(s: Seq<Seq<char>>) -> Seq<Seq<char>>
    decreases s.len(),
{
    if s.len() == 0 {
        Seq::empty()
    } else {
        inserted(in_order(s.drop_last()), s.last())
    }
}

/// Whether an entry is a file that someone may execute.
pub open spec fn is_executable(entry: DirEntry) -> bool {
    entry.is_file && entry.mode & EXECUTABLE_BITS != 0
}

/// The paths of the executables among the entries, as they come.
pub open spec fn executable_paths(entries: Seq<DirEntry>) -> Seq<Seq<char>>
    decreases entries.len(),
{
    if entries.len() == 0 {
        Seq::empty()
    } else if is_executable(entries.last()) {
        executable_paths(entries.drop_last()).push(entries.last().path@)
    } else {
        executable_paths(entries.drop_last())
    }
}

/// The executables of a directory, in order.
pub open spec fn discovered(entries: Seq<DirEntry>) -> Seq<Seq<char>> {
    in_order(executable_paths(entries))
}

/// The copies to make of the candidates: each goes under its own name into
/// the output directory; a candidate without a name is passed over.
pub open spec fn copy_plan_of(candidates: Seq<Seq<char>>, output_dir: Seq<char>) -> Seq<
    CopyJobView,
>
    decreases candidates.len(),
{
    if candidates.len() == 0 {
        Seq::empty()
    } else {
        let before = copy_plan_of(candidates.drop_last(), output_dir);
        match file_name_of(candidates.last()) {
            Some(name) => before.push(
                CopyJobView { from: candidates.last(), to: joined(output_dir, name) },
            ),
            None => before,
        }
    }
}

/// Whether `a` stands before `b`, or is `b`.
pub fn text_le_exec(a: &Vec<char>, b: &Vec<char>) -> (r: bool)
    ensures
        r == text_le(a@, b@),
{
    let mut i: usize = 0;
    assert(a@.skip(0) =~= a@);
    assert(b@.skip(0) =~= b@);
    loop
        invariant
            i <= a.len(),
            i <= b.len(),
            text_le(a@, b@) == text_le(a@.skip(i as int), b@.skip(i as int)),
        decreases a.len() - i,
    {
        if i == a.len() {
            return true;
        }
        if i == b.len() {
            return false;
        }
        if a[i] != b[i] {
            return a[i] < b[i];
        }
        assert(a@.skip(i as int).drop_first() =~= a@.skip(i + 1));
        assert(b@.skip(i as int).drop_first() =~= b@.skip(i + 1));
        i += 1;
    }
}

/// Whether `a` stands before `b`, or is `b`.
pub fn string_le(a: &str, b: &str) -> (r: bool)
    ensures
        r == text_le(a@, b@),
{
    let x = to_chars(a);
    let y = to_chars(b);
    text_le_exec(&x, &y)
}

/// Puts `x` in its place in `list`.
fn insert_in_order(list: &mut Vec<String>, x: String)
    ensures
        views(final(list)@) == inserted(views(old(list)@), x@),
{
    let ghost start = views(list@);
    let mut tail: Vec<String> = Vec::new();
    // `tail` holds, last first, the entries that must follow `x`.
    assert(views(tail@).reverse() =~= Seq::<Seq<char>>::empty());
    assert(inserted(start, x@) + Seq::<Seq<char>>::empty() =~= inserted(start, x@));
    while list.len() > 0 && !string_le(list[list.len() - 1].as_str(), x.as_str())
        invariant
            inserted(start, x@) == inserted(views(list@), x@) + views(tail@).reverse(),
        decreases list.len(),
    {
        let ghost before = views(list@);
        let ghost old_tail = views(tail@);
        let moved = list.pop().unwrap();
        assert(views(list@) =~= before.drop_last());
        tail.push(moved);
        assert(views(tail@) =~= old_tail.push(before.last()));
        assert(views(tail@).reverse() =~= seq![before.last()] + old_tail.reverse());
        assert(inserted(before, x@) == inserted(before.drop_last(), x@).push(before.last()));
        assert(inserted(before, x@) + old_tail.reverse() =~= inserted(views(list@), x@) + views(
            tail@,
        ).reverse());
    }
    let ghost head = views(list@);
    assert(inserted(head, x@) =~= head.push(x@));
    list.push(x);
    assert(views(list@) =~= head.push(x@));
    while tail.len() > 0
        invariant
            inserted(start, x@) == views(list@) + views(tail@).reverse(),
        decreases tail.len(),
    {
        let ghost before = views(list@);
        let ghost old_tail = views(tail@);
        let moved = tail.pop().unwrap();
        assert(views(tail@) =~= old_tail.drop_last());
        list.push(moved);
        assert(views(list@) =~= before.push(old_tail.last()));
        assert(old_tail.reverse() =~= seq![old_tail.last()] + old_tail.drop_last().reverse());
        assert(before + old_tail.reverse() =~= views(list@) + views(tail@).reverse());
    }
    assert(views(tail@).reverse() =~= Seq::<Seq<char>>::empty());
    assert(views(list@) + Seq::<Seq<char>>::empty() =~= views(list@));
}

/// The entries in order.
pub fn sort_paths(paths: &Vec<String>) -> (sorted: Vec<String>)
    ensures
        views(sorted@) == in_order(views(paths@)),
{
    let mut sorted: Vec<String> = Vec::new();
    let mut i: usize = 0;
    assert(views(sorted@) =~= in_order(views(paths@).take(0)));
    while i < paths.len()
        invariant
            i <= paths.len(),
            views(sorted@) == in_order(views(paths@).take(i as int)),
        decreases paths.len() - i,
    {
        assert(views(paths@).take(i + 1).drop_last() =~= views(paths@).take(i as int));
        assert(views(paths@).take(i + 1).last() == paths@[i as int]@);
        insert_in_order(&mut sorted, paths[i].clone());
        i += 1;
    }
    assert(views(paths@).take(paths.len() as int) =~= views(paths@));
    sorted
}

/// The executables among the entries of a directory, in order. An empty
/// listing, as of a directory that is not there, gives none.
pub fn collect_executables(entries: &Vec<DirEntry>) -> (paths: Vec<String>)
    ensures
        views(paths@) == discovered(entries@),
{
    let mut found: Vec<String> = Vec::new();
    let mut i: usize = 0;
    assert(views(found@) =~= executable_paths(entries@.take(0)));
    while i < entries.len()
        invariant
            i <= entries.len(),
            views(found@) == executable_paths(entries@.take(i as int)),
        decreases entries.len() - i,
    {
        assert(entries@.take(i + 1).drop_last() =~= entries@.take(i as int));
        assert(entries@.take(i + 1).last() == entries@[i as int]);
        let ghost before = views(found@);
        if entries[i].is_file && entries[i].mode & EXECUTABLE_BITS != 0 {
            found.push(entries[i].path.clone());
            assert(views(found@) =~= before.push(entries@[i as int].path@));
        }
        i += 1;
    }
    assert(entries@.take(entries.len() as int) =~= entries@);
    sort_paths(&found)
}

/// The copies to make of the candidates into the output directory.
pub fn copy_plan(candidates: &Vec<String>, output_dir: &str) -> (jobs: Vec<CopyJob>)
    ensures
        job_views(jobs@) == copy_plan_of(views(candidates@), output_dir@),
{
    let mut jobs: Vec<CopyJob> = Vec::new();
    let mut i: usize = 0;
    assert(job_views(jobs@) =~= copy_plan_of(views(candidates@).take(0), output_dir@));
    while i < candidates.len()
        invariant
            i <= candidates.len(),
            job_views(jobs@) == copy_plan_of(views(candidates@).take(i as int), output_dir@),
        decreases candidates.len() - i,
    {
        assert(views(candidates@).take(i + 1).drop_last() =~= views(candidates@).take(i as int));
        assert(views(candidates@).take(i + 1).last() == candidates@[i as int]@);
        let ghost before = job_views(jobs@);
        match file_name(candidates[i].as_str()) {
            Some(name) => {
                let job = CopyJob {
                    from: candidates[i].clone(),
                    to: join_path(output_dir, name.as_str()),
                };
                jobs.push(job);
                assert(job_views(jobs@) =~= before.push(
                    CopyJobView {
                        from: candidates@[i as int]@,
                        to: joined(output_dir@, name@),
                    },
                ));
            },
            None => {},
        }
        i += 1;
    }
    assert(views(candidates@).take(candidates.len() as int) =~= views(candidates@));
    jobs
}

/// Of two texts, one stands before the other or they are equal in order.
pub proof fn lemma_text_le_total(a: Seq<char>, b: Seq<char>)
    ensures
        text_le(a, b) || text_le(b, a),
    decreases a.len(),
{
    if a.len() > 0 && b.len() > 0 && a[0] == b[0] {
        lemma_text_le_total(a.drop_first(), b.drop_first());
    }
}

/// The order of texts is transitive.
pub proof fn lemma_text_le_transitive(a: Seq<char>, b: Seq<char>, c: Seq<char>)
    requires
        text_le(a, b),
        text_le(b, c),
    ensures
        text_le(a, c),
    decreases a.len(),
{
    if a.len() > 0 && b.len() > 0 && c.len() > 0 && a[0] == b[0] && b[0] == c[0] {
        lemma_text_le_transitive(a.drop_first(), b.drop_first(), c.drop_first());
    }
}

/// Putting a text in its place keeps an ordered list ordered, and the list
/// then holds what it held before and the new text, each as often as before.
pub proof fn lemma_inserted(s: Seq<Seq<char>>, x: Seq<char>)
    requires
        ordered(s),
    ensures
        ordered(inserted(s, x)),
        inserted(s, x).to_multiset() == s.to_multiset().insert(x),
        inserted(s, x).len() == s.len() + 1,
    decreases s.len(),
{
    broadcast use vstd::seq_lib::group_to_multiset_ensures;

    if s.len() == 0 {
        assert(s =~= Seq::<Seq<char>>::empty());
        assert(seq![x] =~= Seq::<Seq<char>>::empty().push(x));
    } else if text_le(s.last(), x) {
        let r = s.push(x);
        assert forall|i: int, j: int| 0 <= i < j < r.len() implies text_le(r[i], r[j]) by {
            if j == s.len() {
                if i < s.len() - 1 {
                    assert(text_le(s[i], s[s.len() - 1]));
                    lemma_text_le_transitive(s[i], s.last(), x);
                }
            }
        }
    } else {
        let init = s.drop_last();
        assert forall|i: int, j: int| 0 <= i < j < init.len() implies text_le(init[i], init[j]) by {
            assert(init[i] == s[i] && init[j] == s[j]);
        }
        lemma_inserted(init, x);
        let mid = inserted(init, x);
        let r = mid.push(s.last());
        lemma_text_le_total(s.last(), x);
        assert forall|k: int| 0 <= k < mid.len() implies text_le(mid[k], s.last()) by {
            // every entry of `mid` is `x` or an entry of `init`
            assert(mid.to_multiset().count(mid[k]) > 0);
            assert(init.to_multiset().insert(x).count(mid[k]) > 0);
            if mid[k] != x {
                assert(init.to_multiset().count(mid[k]) > 0);
                assert(init.contains(mid[k]));
                let p = choose|p: int| 0 <= p < init.len() && init[p] == mid[k];
                assert(text_le(s[p], s[s.len() - 1]));
            }
        }
        assert forall|i: int, j: int| 0 <= i < j < r.len() implies text_le(r[i], r[j]) by {
            if j < mid.len() {
                assert(text_le(mid[i], mid[j]));
            }
        }
        assert(init.push(s.last()) =~= s);
        assert(r.to_multiset() =~= s.to_multiset().insert(x));
    }
}

/// The entries in order are ordered, and are the entries: each occurs as
/// often as before.
pub proof fn lemma_in_order(s: Seq<Seq<char>>)
    ensures
        ordered(in_order(s)),
        in_order(s).to_multiset() == s.to_multiset(),
        in_order(s).len() == s.len(),
    decreases s.len(),
{
    broadcast use vstd::seq_lib::group_to_multiset_ensures;

    if s.len() == 0 {
        assert(s =~= Seq::<Seq<char>>::empty());
    } else {
        lemma_in_order(s.drop_last());
        lemma_inserted(in_order(s.drop_last()), s.last());
        assert(s.drop_last().push(s.last()) =~= s);
    }
}

} // verus!
