//! Path checking and course list filtering.
use vstd::prelude::*;
use crate::parser::models::course::{Course, CourseView};
use crate::parser::course::courses_view;
use crate::text::{has_char, contains_char};

verus! {

/// Whether the path text `path` is usable: it holds no NUL character, and the
/// path it names, made absolute, is not empty. `absolute` tells whether the
/// path is absolute on this system; `cwd` is the working directory, `None`
/// when it cannot be read. An absolute path is taken as it is; a relative one
/// is joined to the working directory, which gives an empty path only when
/// both are empty.
pub open spec fn valid_path(path: Seq<char>, absolute: bool, cwd: Option<Seq<char>>) -> bool {
    &&& !has_char(path, '\0')
    &&& if absolute {
        path.len() > 0
    } else {
        cwd matches Some(c) && (c.len() > 0 || path.len() > 0)
    }
}

/// `std::path::Path::is_absolute` on `path_str`. Whether a path is absolute
/// depends on the system the program runs on (a leading `/` on Unix, a drive
/// prefix and a root on Windows), so nothing is claimed of the result.
#[verifier::external_body]
fn path_is_absolute(path_str: &str) -> (b: bool) {
    std::path::Path::new(path_str).is_absolute()
}

/// The verdict on `path_str`, given whether it is absolute on this system and
/// the working directory (`None` when it cannot be read).
pub fn path_verdict(path_str: &str, absolute: bool, cwd: Option<&str>) -> (b: bool)
    ensures
        b == valid_path(path_str@, absolute, cwd.deep_view()),
{
    if contains_char(path_str, '\0') {
        return false;
    }
    if absolute {
        !path_str.is_empty()
    } else {
        match cwd {
            Some(c) => !c.is_empty() || !path_str.is_empty(),
            None => false,
        }
    }
}

/// Whether `path_str` names a usable path, given the working directory
/// (`None` when it cannot be read): no NUL character, and either the path is
/// absolute or the working directory could be read (and the joined path is
/// not empty). Whether the path is absolute is asked of the system; the
/// result is the verdict of `path_verdict` for that answer.
pub fn is_valid_path(path_str: &str, cwd: Option<&str>) -> (b: bool)
    ensures
        b == valid_path(path_str@, true, cwd.deep_view()) || b == valid_path(path_str@, false, cwd.deep_view()),
        has_char(path_str@, '\0') ==> !b,
{
    let absolute = path_is_absolute(path_str);
    path_verdict(path_str, absolute, cwd)
}

/// What identifies a course when duplicates are dropped.
pub open spec fn course_key(c: CourseView) -> (Seq<char>, Seq<char>, i32) {
    (c.title, c.code, c.course_id)
}

/// Whether some course of `s` has key `k`.
pub open spec fn has_key(s: Seq<CourseView>, k: (Seq<char>, Seq<char>, i32)) -> bool {
    exists|j: int| 0 <= j < s.len() && course_key(s[j]) == k
}

/// `s` with every course whose key came earlier dropped; the first of each key stays.
pub open spec fn dedup_spec(s: Seq<CourseView>) -> Seq<CourseView>
    decreases s.len(),
{
    if s.len() == 0 {
        s
    } else if has_key(s.drop_last(), course_key(s.last())) {
        dedup_spec(s.drop_last())
    } else {
        dedup_spec(s.drop_last()).push(s.last())
    }
}

/// The courses of `s` whose id is among `ids`, in order.
pub open spec fn with_ids(s: Seq<CourseView>, ids: Seq<i32>) -> Seq<CourseView>
    decreases s.len(),
{
    if s.len() == 0 {
        s
    } else if ids.contains(s.last().course_id) {
        with_ids(s.drop_last(), ids).push(s.last())
    } else {
        with_ids(s.drop_last(), ids)
    }
}

/// Whether `id` is the id of some course of `s`.
pub open spec fn id_found(s: Seq<CourseView>, id: i32) -> bool {
    exists|j: int| 0 <= j < s.len() && #[trigger] s[j].course_id == id
}

/// Whether every id of `ids` is the id of some course of `s`.
pub open spec fn all_found(s: Seq<CourseView>, ids: Seq<i32>) -> bool {
    forall|i: int| 0 <= i < ids.len() ==> id_found(s, #[trigger] ids[i])
}

/// The courses with the requested ids, in order, when every requested id is
/// found among them; `None` otherwise.
pub open spec fn find_spec(s: Seq<CourseView>, ids: Seq<i32>) -> Option<Seq<CourseView>> {
    if all_found(s, ids) {
        Some(with_ids(s, ids))
    } else {
        None
    }
}

/// Whether no two courses of `s` share their key.
pub open spec fn distinct_keys(s: Seq<CourseView>) -> bool {
    forall|i: int, j: int| 0 <= i < j < s.len() ==> course_key(#[trigger] s[i]) != course_key(#[trigger] s[j])
}

/// Dropping duplicates keeps every key and adds none: a key occurs among the
/// courses left exactly when it occurs among the courses given.
pub proof fn lemma_dedup_same_keys(s: Seq<CourseView>, k: (Seq<char>, Seq<char>, i32))
    ensures
        has_key(dedup_spec(s), k) == has_key(s, k),
{
    lemma_dedup_keys(s, k);
}

/// No two courses left after dropping duplicates share a key.
pub proof fn lemma_dedup_distinct(s: Seq<CourseView>)
    ensures
        distinct_keys(dedup_spec(s)),
    decreases s.len(),
{
    if s.len() > 0 {
        let p = s.drop_last();
        lemma_dedup_distinct(p);
        lemma_dedup_keys(p, course_key(s.last()));
        let d = dedup_spec(p);
        if !has_key(p, course_key(s.last())) {
            let e = d.push(s.last());
            assert forall|i: int, j: int| 0 <= i < j < e.len() implies course_key(#[trigger] e[i]) != course_key(#[trigger] e[j]) by {
                if j == d.len() {
                    assert(e[i] == d[i]);
                    assert(e[j] == s.last());
                } else {
                    assert(e[i] == d[i] && e[j] == d[j]);
                }
            }
        }
    }
}

proof fn lemma_dedup_of_distinct(s: Seq<CourseView>)
    requires
        distinct_keys(s),
    ensures
        dedup_spec(s) == s,
    decreases s.len(),
{
    if s.len() > 0 {
        let p = s.drop_last();
        assert(distinct_keys(p)) by {
            assert forall|i: int, j: int| 0 <= i < j < p.len() implies course_key(#[trigger] p[i]) != course_key(#[trigger] p[j]) by {
                assert(p[i] == s[i] && p[j] == s[j]);
            }
        }
        lemma_dedup_of_distinct(p);
        if has_key(p, course_key(s.last())) {
            let j = choose|j: int| 0 <= j < p.len() && course_key(p[j]) == course_key(s.last());
            assert(s[j] == p[j]);
            assert(false);
        }
        assert(p.push(s.last()) == s);
    }
}

/// Dropping duplicates twice is dropping them once.
pub proof fn lemma_dedup_idempotent(s: Seq<CourseView>)
    ensures
        dedup_spec(dedup_spec(s)) == dedup_spec(s),
{
    lemma_dedup_distinct(s);
    lemma_dedup_of_distinct(dedup_spec(s));
}

/// Every course kept when filtering by ids has a requested id, and every
/// course of `s` with a requested id is kept.
pub proof fn lemma_with_ids_members(s: Seq<CourseView>, ids: Seq<i32>, c: CourseView)
    ensures
        with_ids(s, ids).contains(c) <==> (s.contains(c) && ids.contains(c.course_id)),
    decreases s.len(),
{
    if s.len() > 0 {
        let p = s.drop_last();
        lemma_with_ids_members(p, ids, c);
        assert(s == p.push(s.last()));
        if s.contains(c) && c != s.last() {
            let j = choose|j: int| 0 <= j < s.len() && s[j] == c;
            assert(p[j] == c);
        }
        if p.contains(c) {
            let j = choose|j: int| 0 <= j < p.len() && p[j] == c;
            assert(s[j] == c);
        }
        let w = with_ids(p, ids);
        if ids.contains(s.last().course_id) {
            assert(w.push(s.last())[w.len() as int] == s.last());
            if w.contains(c) {
                let j = choose|j: int| 0 <= j < w.len() && w[j] == c;
                assert(w.push(s.last())[j] == c);
            }
            if w.push(s.last()).contains(c) && c != s.last() {
                let j = choose|j: int| 0 <= j < w.len() + 1 && w.push(s.last())[j] == c;
                assert(w[j] == c);
            }
        }
        assert(s[s.len() - 1] == s.last());
    }
}

/// The courses to download: all of them when no ids are requested or when a
/// requested id is missing; else those with a requested id.
pub open spec fn requested_spec(s: Seq<CourseView>, ids: Seq<i32>) -> Seq<CourseView> {
    if ids.len() == 0 {
        s
    } else {
        match find_spec(s, ids) {
            Some(found) => found,
            None => s,
        }
    }
}

/// Whether `a` and `b` share their title, code and id.
pub open spec fn same_triple(a: CourseView, b: CourseView) -> bool {
    &&& a.title == b.title
    &&& a.code == b.code
    &&& a.course_id == b.course_id
}

proof fn lemma_dedup_step(s: Seq<CourseView>)
    requires
        s.len() > 0,
    ensures
        has_key(s.drop_last(), course_key(s.last())) ==> dedup_spec(s) == dedup_spec(s.drop_last()),
        !has_key(s.drop_last(), course_key(s.last())) ==> dedup_spec(s) == dedup_spec(s.drop_last()).push(s.last()),
{
}

proof fn lemma_dedup_subset(s: Seq<CourseView>, c: CourseView)
    requires
        dedup_spec(s).contains(c),
    ensures
        s.contains(c),
    decreases s.len(),
{
    let p = s.drop_last();
    lemma_dedup_step(s);
    let dp = dedup_spec(p);
    let d = dedup_spec(s);
    let k = choose|k: int| 0 <= k < d.len() && d[k] == c;
    if k < dp.len() {
        assert(d[k] == dp[k]);
        assert(dp.contains(c));
        lemma_dedup_subset(p, c);
        let m = choose|m: int| 0 <= m < p.len() && p[m] == c;
        assert(s[m] == c);
    } else {
        assert(c == s[s.len() - 1]);
    }
}

proof fn lemma_dedup_first_kept(s: Seq<CourseView>, i: int)
    requires
        0 <= i < s.len(),
        forall|j: int| 0 <= j < i ==> !same_triple(#[trigger] s[j], s[i]),
    ensures
        dedup_spec(s).contains(s[i]),
    decreases s.len(),
{
    let p = s.drop_last();
    lemma_dedup_step(s);
    let dp = dedup_spec(p);
    let d = dedup_spec(s);
    if i < s.len() - 1 {
        assert(p[i] == s[i]);
        assert forall|j: int| 0 <= j < i implies !same_triple(#[trigger] p[j], p[i]) by {
            assert(p[j] == s[j]);
        }
        lemma_dedup_first_kept(p, i);
        let k = choose|k: int| 0 <= k < dp.len() && dp[k] == p[i];
        if !has_key(p, course_key(s.last())) {
            assert(dp.push(s.last())[k] == dp[k]);
        }
        assert(d[k] == s[i]);
    } else {
        if has_key(p, course_key(s.last())) {
            let j = choose|j: int| 0 <= j < p.len() && course_key(p[j]) == course_key(s.last());
            assert(s[j] == p[j]);
            assert(same_triple(s[j], s[i]));
        }
        assert(d[dp.len() as int] == s[i]);
    }
}

/// Dropping duplicates by (title, code, id), whatever the season: no two
/// courses left share their title, code and id; every course left is one of
/// the courses given; and every course whose title, code and id no earlier
/// course shares is left, so the first of each such triple stays.
pub proof fn lemma_dedup_first_stays(s: Seq<CourseView>)
    ensures
        forall|i: int, j: int|
            0 <= i < j < dedup_spec(s).len() ==> !same_triple(
                #[trigger] dedup_spec(s)[i],
                #[trigger] dedup_spec(s)[j],
            ),
        forall|c: CourseView| #[trigger] dedup_spec(s).contains(c) ==> s.contains(c),
        forall|i: int|
            0 <= i < s.len() && (forall|j: int| 0 <= j < i ==> !same_triple(#[trigger] s[j], s[i]))
                ==> dedup_spec(s).contains(#[trigger] s[i]),
{
    lemma_dedup_distinct(s);
    let d = dedup_spec(s);
    assert forall|i: int, j: int| 0 <= i < j < d.len() implies !same_triple(#[trigger] d[i], #[trigger] d[j]) by {
        assert(course_key(d[i]) != course_key(d[j]));
    }
    assert forall|c: CourseView| #[trigger] d.contains(c) implies s.contains(c) by {
        lemma_dedup_subset(s, c);
    }
    assert forall|i: int|
        0 <= i < s.len() && (forall|j: int| 0 <= j < i ==> !same_triple(#[trigger] s[j], s[i])) implies d.contains(
        #[trigger] s[i],
    ) by {
        lemma_dedup_first_kept(s, i);
    }
}

/// Courses that come later never disturb what was kept before them: the
/// courses left from `s` are, in the same order, the first courses left
/// from `s` followed by `t`.
pub proof fn lemma_dedup_prefix(s: Seq<CourseView>, t: Seq<CourseView>)
    ensures
        dedup_spec(s).is_prefix_of(dedup_spec(s + t)),
    decreases t.len(),
{
    if t.len() == 0 {
        assert(s + t == s);
    } else {
        let p = t.drop_last();
        lemma_dedup_prefix(s, p);
        assert((s + t).drop_last() == s + p);
        lemma_dedup_step(s + t);
    }
}

/// Which courses are downloaded for the ids requested on the command line:
/// all the courses given, unchanged, when no id is requested or when some
/// requested id is the id of no course; otherwise exactly the courses whose
/// id is requested, in their order.
pub proof fn lemma_requested_courses(s: Seq<CourseView>, ids: Seq<i32>)
    ensures
        ids.len() == 0 ==> requested_spec(s, ids) == s,
        (exists|i: int|
            #![trigger ids[i]]
            0 <= i < ids.len() && forall|j: int| 0 <= j < s.len() ==> (#[trigger] s[j]).course_id != ids[i])
            ==> requested_spec(s, ids) == s,
        ids.len() > 0 && (forall|i: int|
            #![trigger ids[i]]
            0 <= i < ids.len() ==> exists|j: int| 0 <= j < s.len() && (#[trigger] s[j]).course_id == ids[i])
            ==> requested_spec(s, ids) == with_ids(s, ids),
        forall|c: CourseView|
            #[trigger] with_ids(s, ids).contains(c) <==> (s.contains(c) && ids.contains(c.course_id)),
{
    if exists|i: int|
        #![trigger ids[i]]
        0 <= i < ids.len() && forall|j: int| 0 <= j < s.len() ==> (#[trigger] s[j]).course_id != ids[i] {
        let i = choose|i: int|
            #![trigger ids[i]]
            0 <= i < ids.len() && forall|j: int| 0 <= j < s.len() ==> (#[trigger] s[j]).course_id != ids[i];
        assert(!id_found(s, ids[i]));
        assert(!all_found(s, ids));
    }
    if ids.len() > 0 && (forall|i: int|
        #![trigger ids[i]]
        0 <= i < ids.len() ==> exists|j: int| 0 <= j < s.len() && (#[trigger] s[j]).course_id == ids[i]) {
        assert forall|i: int| 0 <= i < ids.len() implies id_found(s, #[trigger] ids[i]) by {
            let j = choose|j: int| 0 <= j < s.len() && (#[trigger] s[j]).course_id == ids[i];
        }
    }
    assert forall|c: CourseView|
        #[trigger] with_ids(s, ids).contains(c) <==> (s.contains(c) && ids.contains(c.course_id)) by {
        lemma_with_ids_members(s, ids, c);
    }
}

/// The courses to download, given the ids requested on the command line:
/// every course when none is requested or when some requested id is not
/// found; else the courses with a requested id, in order.
pub fn requested_courses(courses: Vec<Course>, ids: &[i32]) -> (r: Vec<Course>)
    ensures
        courses_view(r@) == requested_spec(courses_view(courses@), ids@),
{
    if ids.len() == 0 {
        return courses;
    }
    match courses.find_by_ids(ids) {
        Some(found) => found,
        None => courses,
    }
}

/// The courses at the positions `selection` picked, in the order picked.
pub fn pick_courses(courses: &Vec<Course>, selection: &[usize]) -> (r: Vec<Course>)
    requires
        forall|i: int| 0 <= i < selection.len() ==> #[trigger] selection@[i] < courses.len(),
    ensures
        courses_view(r@) == selection@.map_values(|i: usize| courses@[i as int]@),
{
    let mut out: Vec<Course> = Vec::new();
    let mut k: usize = 0;
    while k < selection.len()
        invariant
            k <= selection.len(),
            forall|i: int| 0 <= i < selection.len() ==> #[trigger] selection@[i] < courses.len(),
            courses_view(out@) == selection@.take(k as int).map_values(|i: usize| courses@[i as int]@),
        decreases selection.len() - k,
    {
        let ghost prev = out@;
        out.push(courses[selection[k]].duplicate());
        assert(selection@.take(k + 1) == selection@.take(k as int).push(selection@[k as int]));
        assert(courses_view(out@) =~= courses_view(prev).push(courses@[selection@[k as int] as int]@));
        assert(selection@.take(k + 1).map_values(|i: usize| courses@[i as int]@) =~= selection@.take(k as int).map_values(|i: usize| courses@[i as int]@).push(courses@[selection@[k as int] as int]@));
        k += 1;
    }
    assert(selection@.take(selection.len() as int) == selection@);
    out
}

/// Filters over a list of courses.
pub trait CourseFilter {
    /// The courses without repeats of a (title, code, id) triple; the first stays.
    fn deduplicate(&self) -> Vec<Course>;

    /// The courses whose id is requested, if every requested id is found.
    fn find_by_ids(&self, ids: &[i32]) -> Option<Vec<Course>>;
}

fn same_key(a: &Course, b: &Course) -> (r: bool)
    ensures
        r == (course_key(a@) == course_key(b@)),
{
    a.title == b.title && a.code == b.code && a.course_id == b.course_id
}

fn contains_id(ids: &[i32], id: i32) -> (r: bool)
    ensures
        r == ids@.contains(id),
{
    let mut i: usize = 0;
    while i < ids.len()
        invariant
            i <= ids@.len(),
            forall|k: int| 0 <= k < i ==> ids@[k] != id,
        decreases ids.len() - i,
    {
        if ids[i] == id {
            return true;
        }
        i += 1;
    }
    false
}

proof fn lemma_dedup_keys(s: Seq<CourseView>, k: (Seq<char>, Seq<char>, i32))
    ensures
        has_key(dedup_spec(s), k) == has_key(s, k),
    decreases s.len(),
{
    if s.len() > 0 {
        let p = s.drop_last();
        lemma_dedup_keys(p, k);
        if has_key(s, k) && !has_key(p, k) {
            assert(course_key(s.last()) == k) by {
                let j = choose|j: int| 0 <= j < s.len() && course_key(s[j]) == k;
                if j < s.len() - 1 {
                    assert(p[j] == s[j]);
                }
            }
        }
        if has_key(p, k) {
            let j = choose|j: int| 0 <= j < p.len() && course_key(p[j]) == k;
            assert(s[j] == p[j]);
        }
        if !has_key(p, course_key(s.last())) {
            let d = dedup_spec(p);
            if has_key(d.push(s.last()), k) && !has_key(d, k) {
                let j = choose|j: int| 0 <= j < d.len() + 1 && course_key(d.push(s.last())[j]) == k;
                assert(j == d.len());
                assert(course_key(s[s.len() - 1]) == k);
            }
            if has_key(d, k) {
                let j = choose|j: int| 0 <= j < d.len() && course_key(d[j]) == k;
                assert(d.push(s.last())[j] == d[j]);
            }
            if course_key(s.last()) == k {
                assert(d.push(s.last())[d.len() as int] == s.last());
            }
        }
    }
}

impl CourseFilter for Vec<Course> {
    /// The courses without repeats of a (title, code, id) triple: the first
    /// course of each triple stays, in order.
    fn deduplicate(&self) -> (r: Vec<Course>)
        ensures
            courses_view(r@) == dedup_spec(courses_view(self@)),
    {
        let ghost s = courses_view(self@);
        let mut unique: Vec<Course> = Vec::new();
        let mut i: usize = 0;
        assert(s.take(0) =~= Seq::<CourseView>::empty());
        assert(courses_view(unique@) =~= Seq::<CourseView>::empty());
        while i < self.len()
            invariant
                i <= self.len(),
                s == courses_view(self@),
                courses_view(unique@) == dedup_spec(s.take(i as int)),
            decreases self.len() - i,
        {
            let c = &self[i];
            let ghost t = s.take(i as int);
            assert(s.take(i + 1).drop_last() == t);
            assert(s.take(i + 1).last() == c@);
            let mut found = false;
            let mut j: usize = 0;
            while j < unique.len()
                invariant
                    j <= unique.len(),
                    courses_view(unique@) == dedup_spec(t),
                    c@ == s[i as int],
                    found == exists|k: int| 0 <= k < j && course_key(unique@[k]@) == course_key(c@),
                decreases unique.len() - j,
            {
                if same_key(&unique[j], c) {
                    found = true;
                }
                j += 1;
            }
            proof {
                lemma_dedup_keys(t, course_key(c@));
                let d = courses_view(unique@);
                if found {
                    let k = choose|k: int| 0 <= k < j && course_key(unique@[k]@) == course_key(c@);
                    assert(d[k] == unique@[k]@);
                }
                if has_key(d, course_key(c@)) {
                    let k = choose|k: int| 0 <= k < d.len() && course_key(d[k]) == course_key(c@);
                    assert(d[k] == unique@[k]@);
                }
            }
            if !found {
                let ghost prev = unique@;
                unique.push(c.duplicate());
                assert(courses_view(unique@) =~= courses_view(prev).push(c@));
            }
            i += 1;
        }
        assert(s.take(self.len() as int) == s);
        unique
    }

    /// The courses whose id is among `ids`, in order, when every id of `ids`
    /// is the id of some course; `None` otherwise.
    fn find_by_ids(&self, ids: &[i32]) -> (r: Option<Vec<Course>>)
        ensures
            match r {
                Some(v) => find_spec(courses_view(self@), ids@) == Some(courses_view(v@)),
                None => find_spec(courses_view(self@), ids@) is None,
            },
    {
        let ghost s = courses_view(self@);
        let mut filtered: Vec<Course> = Vec::new();
        let mut i: usize = 0;
        assert(s.take(0) =~= Seq::<CourseView>::empty());
        assert(courses_view(filtered@) =~= Seq::<CourseView>::empty());
        while i < self.len()
            invariant
                i <= self.len(),
                s == courses_view(self@),
                courses_view(filtered@) == with_ids(s.take(i as int), ids@),
            decreases self.len() - i,
        {
            assert(s.take(i + 1).drop_last() == s.take(i as int));
            assert(s.take(i + 1).last() == self@[i as int]@);
            if contains_id(ids, self[i].course_id) {
                let ghost prev = filtered@;
                filtered.push(self[i].duplicate());
                assert(courses_view(filtered@) =~= courses_view(prev).push(self@[i as int]@));
            }
            i += 1;
        }
        assert(s.take(self.len() as int) == s);
        let mut k: usize = 0;
        while k < ids.len()
            invariant
                k <= ids@.len(),
                s == courses_view(self@),
                forall|q: int| 0 <= q < k ==> id_found(s, #[trigger] ids@[q]),
            decreases ids.len() - k,
        {
            let mut found = false;
            let mut j: usize = 0;
            while j < self.len()
                invariant
                    j <= self.len(),
                    s == courses_view(self@),
                    k < ids@.len(),
                    found ==> id_found(s, ids@[k as int]),
                    !found ==> forall|m: int| 0 <= m < j ==> #[trigger] s[m].course_id != ids@[k as int],
                decreases self.len() - j,
            {
                if self[j].course_id == ids[k] {
                    assert(s[j as int].course_id == ids@[k as int]);
                    found = true;
                }
                j += 1;
            }
            if !found {
                assert(!all_found(s, ids@));
                return None;
            }
            k += 1;
        }
        Some(filtered)
    }
}

} // verus!
