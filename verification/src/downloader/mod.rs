//! Planning and scheduling the downloads of course contents: which items are
//! fetched, where they are stored, and which transfers run at a time.
pub mod scheduler;

use vstd::prelude::*;
use crate::parser::models::content::{Content, ContentView, ContentType, content_type_label, clone_opt_string};
use crate::parser::models::course::{Course, CourseView};
use crate::text::{trim, has_char, trim_str, chars_of, string_of};

verus! {

broadcast use vstd::string::group_string_axioms;

/// The host that download links are relative to.
pub const CMS_HOST: &'static str = "https://cms.giu-uni.de";

/// The contents of each course, course by course: a map from courses to their
/// contents, in the order the courses were first inserted. No course occurs twice.
pub struct CourseContent {
    entries: Vec<(Course, Vec<Content>)>,
}

/// One content item to fetch, with the course it belongs to.
pub struct DownloadableItem {
    pub course: Course,
    pub title: String,
    pub content_type: ContentType,
    pub description: Option<String>,
    pub download_link: Option<String>,
}

/// An item as plain values.
pub struct ItemView {
    pub course: CourseView,
    pub title: Seq<char>,
    pub content_type: ContentType,
    pub description: Option<Seq<char>>,
    pub download_link: Option<Seq<char>>,
}

impl View for DownloadableItem {
    type V = ItemView;

    open spec fn view(&self) -> ItemView {
        ItemView {
            course: self.course@,
            title: self.title@,
            content_type: self.content_type,
            description: self.description.deep_view(),
            download_link: self.download_link.deep_view(),
        }
    }
}

/// The item for `content` of `course`.
pub open spec fn item_spec(course: CourseView, content: ContentView) -> ItemView {
    ItemView {
        course,
        title: content.title,
        content_type: content.content_type,
        description: content.description,
        download_link: content.download_link,
    }
}

/// The text after the last `.` of `s` (all of `s` when it has none).
pub open spec fn after_last_dot(s: Seq<char>) -> Seq<char>
    decreases s.len(),
{
    if s.len() == 0 {
        s
    } else if s.last() == '.' {
        Seq::empty()
    } else {
        after_last_dot(s.drop_last()).push(s.last())
    }
}

/// Whether a download link names a file extension: its trimmed text has a `.`.
pub open spec fn link_has_extension(link: Option<Seq<char>>) -> bool {
    link matches Some(l) ==> has_char(trim(l), '.')
}

/// Where an item with a link is stored under `base`:
/// `base/course title/type label/title.extension`, trimmed, the extension
/// being what follows the last `.` of the trimmed link.
pub open spec fn item_path(item: ItemView, base: Seq<char>) -> Option<Seq<char>> {
    match item.download_link {
        Some(link) => Some(
            trim(
                base + "/"@ + item.course.title + "/"@ + content_type_label(item.content_type) + "/"@
                    + item.title + "."@ + after_last_dot(trim(link)),
            ),
        ),
        None => None,
    }
}

/// Where an item's description is written under `base`: `base/course title/title.txt`.
pub open spec fn description_path(item: ItemView, base: Seq<char>) -> Seq<char> {
    base + "/"@ + item.course.title + "/"@ + item.title + ".txt"@
}

/// The address an item is fetched from: the host followed by its link.
pub open spec fn item_url(link: Seq<char>) -> Seq<char> {
    CMS_HOST@ + link
}

/// How an item is shown while it downloads: `course title -| title`.
pub open spec fn item_label(item: ItemView) -> Seq<char> {
    item.course.title + " -| "@ + item.title
}

proof fn lemma_after_last_dot(s: Seq<char>, i: int)
    requires
        0 <= i < s.len(),
        s[i] == '.',
        forall|k: int| i < k < s.len() ==> s[k] != '.',
    ensures
        after_last_dot(s) == s.subrange(i + 1, s.len() as int),
    decreases s.len(),
{
    if i < s.len() - 1 {
        lemma_after_last_dot(s.drop_last(), i);
        assert(s.drop_last().subrange(i + 1, s.len() - 1).push(s.last()) == s.subrange(i + 1, s.len() as int));
    } else {
        assert(s.subrange(i + 1, s.len() as int) =~= Seq::<char>::empty());
    }
}

/// What follows the last `.` of `s`, which has one.
fn extension_of(s: &str) -> (r: String)
    requires
        has_char(s@, '.'),
    ensures
        r@ == after_last_dot(s@),
{
    let v = chars_of(s);
    let n = v.len();
    let mut i: usize = n;
    while i > 0 && v[i - 1] != '.'
        invariant
            i <= n == v@.len(),
            v@ == s@,
            has_char(v@, '.'),
            forall|k: int| i <= k < n ==> v@[k] != '.',
        decreases i,
    {
        i -= 1;
    }
    if i == 0 {
        proof {
            let k = choose|k: int| 0 <= k < s@.len() && s@[k] == '.';
            assert(v@[k] == '.');
        }
        assert(false);
    }
    proof { lemma_after_last_dot(v@, i - 1); }
    string_of(&v, i, n)
}

impl DownloadableItem {
    /// The item for `content` of `course`.
    pub fn new(course: Course, content: Content) -> (r: Self)
        ensures
            r@ == item_spec(course@, content@),
    {
        DownloadableItem {
            course,
            title: content.title,
            content_type: content.content_type,
            description: content.description,
            download_link: content.download_link,
        }
    }

    /// A copy of this item.
    pub fn duplicate(&self) -> (r: Self)
        ensures
            r@ == self@,
    {
        DownloadableItem {
            course: self.course.duplicate(),
            title: self.title.clone(),
            content_type: self.content_type,
            description: clone_opt_string(&self.description),
            download_link: clone_opt_string(&self.download_link),
        }
    }

    /// Where this item is stored under `base`; `None` when it has no link.
    pub fn path(&self, base: &str) -> (r: Option<String>)
        requires
            link_has_extension(self@.download_link),
        ensures
            r.deep_view() == item_path(self@, base@),
    {
        match &self.download_link {
            Some(link) => {
                let trimmed = trim_str(link.as_str());
                let ext = extension_of(trimmed.as_str());
                let label = self.content_type.label();
                let mut p = String::from_str(base);
                p.append("/");
                p.append(self.course.title.as_str());
                p.append("/");
                p.append(label.as_str());
                p.append("/");
                p.append(self.title.as_str());
                p.append(".");
                p.append(ext.as_str());
                Some(trim_str(p.as_str()))
            },
            None => None,
        }
    }

    /// Where this item's description is written under `base`.
    pub fn description_path(&self, base: &str) -> (r: String)
        ensures
            r@ == description_path(self@, base@),
    {
        let mut p = String::from_str(base);
        p.append("/");
        p.append(self.course.title.as_str());
        p.append("/");
        p.append(self.title.as_str());
        p.append(".txt");
        p
    }

    /// How this item is shown while it downloads.
    pub fn label(&self) -> (r: String)
        ensures
            r@ == item_label(self@),
    {
        let mut p = self.course.title.clone();
        p.append(" -| ");
        p.append(self.title.as_str());
        p
    }
}

/// The address a link is fetched from.
pub fn download_url(link: &str) -> (r: String)
    ensures
        r@ == item_url(link@),
{
    let mut u = String::from_str(CMS_HOST);
    u.append(link);
    u
}

/// The items of the contents of one course, in order.
pub open spec fn course_items(course: CourseView, contents: Seq<ContentView>) -> Seq<ItemView> {
    contents.map_values(|c: ContentView| item_spec(course, c))
}

/// The items of all courses, course by course.
pub open spec fn all_items(content: Seq<(CourseView, Seq<ContentView>)>) -> Seq<ItemView>
    decreases content.len(),
{
    if content.len() == 0 {
        Seq::empty()
    } else {
        all_items(content.drop_last()) + course_items(content.last().0, content.last().1)
    }
}

/// How many contents the entries hold in all.
pub open spec fn total_len(content: Seq<(CourseView, Seq<ContentView>)>) -> nat
    decreases content.len(),
{
    if content.len() == 0 {
        0
    } else {
        total_len(content.drop_last()) + content.last().1.len()
    }
}

proof fn lemma_total_len_prefix(content: Seq<(CourseView, Seq<ContentView>)>, i: int)
    requires
        0 <= i <= content.len(),
    ensures
        total_len(content.take(i)) <= total_len(content),
        i < content.len() ==> total_len(content.take(i + 1)) == total_len(content.take(i)) + content[i].1.len(),
    decreases content.len() - i,
{
    if i < content.len() {
        assert(content.take(i + 1).drop_last() == content.take(i));
        assert(content.take(i + 1).last() == content[i]);
        lemma_total_len_prefix(content, i + 1);
    } else {
        assert(content.take(i) == content);
    }
}

/// Every content of every course becomes an item, whatever the course: there
/// are as many items as contents in all, and the `j`-th content of the `i`-th
/// course is the item after the contents of the courses before it, carrying
/// that course and the content's title, type, description and link.
pub proof fn lemma_all_items_complete(content: Seq<(CourseView, Seq<ContentView>)>)
    ensures
        all_items(content).len() == total_len(content),
        forall|i: int, j: int|
            #![trigger content[i].1[j]]
            0 <= i < content.len() && 0 <= j < content[i].1.len() ==> {
                let item = all_items(content)[total_len(content.take(i)) + j];
                &&& item.course == content[i].0
                &&& item.title == content[i].1[j].title
                &&& item.content_type == content[i].1[j].content_type
                &&& item.description == content[i].1[j].description
                &&& item.download_link == content[i].1[j].download_link
            },
    decreases content.len(),
{
    if content.len() > 0 {
        let d = content.drop_last();
        let n = content.len() - 1;
        lemma_all_items_complete(d);
        let head = all_items(d);
        let tail = course_items(content.last().0, content.last().1);
        assert(all_items(content) == head + tail);
        assert forall|i: int, j: int|
            #![trigger content[i].1[j]]
            0 <= i < content.len() && 0 <= j < content[i].1.len() implies {
                let item = all_items(content)[total_len(content.take(i)) + j];
                &&& item.course == content[i].0
                &&& item.title == content[i].1[j].title
                &&& item.content_type == content[i].1[j].content_type
                &&& item.description == content[i].1[j].description
                &&& item.download_link == content[i].1[j].download_link
            } by {
            if i < n {
                assert(content.take(i) == d.take(i));
                assert(content[i] == d[i]);
                lemma_total_len_prefix(d, i);
                lemma_total_len_prefix(d, i + 1);
                assert(d[i].1[j] == content[i].1[j]);
                assert(all_items(content)[total_len(content.take(i)) + j] == head[total_len(d.take(i)) + j]);
            } else {
                assert(content.take(i) == d);
                assert(all_items(content)[total_len(content.take(i)) + j] == tail[j]);
            }
        }
    }
}

/// The course contents as plain values.
pub open spec fn course_content_view(c: Seq<(Course, Vec<Content>)>) -> Seq<(CourseView, Seq<ContentView>)> {
    c.map_values(|p: (Course, Vec<Content>)| (p.0@, p.1@.map_values(|x: Content| x@)))
}

/// The items as plain values.
pub open spec fn items_view(v: Seq<DownloadableItem>) -> Seq<ItemView> {
    v.map_values(|i: DownloadableItem| i@)
}

/// Whether no course occurs twice among the entries.
pub open spec fn distinct_courses(entries: Seq<(CourseView, Seq<ContentView>)>) -> bool {
    forall|i: int, j: int| 0 <= i < j < entries.len() ==> (#[trigger] entries[i]).0 != (#[trigger] entries[j]).0
}

/// The index of the entry for `course`, if there is one.
pub open spec fn entry_index(entries: Seq<(CourseView, Seq<ContentView>)>, course: CourseView) -> Option<int> {
    if exists|i: int| 0 <= i < entries.len() && (#[trigger] entries[i]).0 == course {
        Some(choose|i: int| 0 <= i < entries.len() && (#[trigger] entries[i]).0 == course)
    } else {
        None
    }
}

fn same_course(a: &Course, b: &Course) -> (r: bool)
    ensures
        r == (a@ == b@),
{
    a.title == b.title && a.season == b.season && a.code == b.code && a.is_active == b.is_active
        && a.course_id == b.course_id && a.season_id == b.season_id
}

impl CourseContent {
    #[verifier::type_invariant]
    spec fn courses_distinct(&self) -> bool {
        distinct_courses(course_content_view(self.entries@))
    }

    /// The entries as plain values, in insertion order.
    pub closed spec fn entries_view(&self) -> Seq<(CourseView, Seq<ContentView>)> {
        course_content_view(self.entries@)
    }

    /// No contents yet.
    pub fn new() -> (c: Self)
        ensures
            c.entries_view() == Seq::<(CourseView, Seq<ContentView>)>::empty(),
    {
        let c = CourseContent { entries: Vec::new() };
        assert(course_content_view(c.entries@) =~= Seq::<(CourseView, Seq<ContentView>)>::empty());
        c
    }

    /// How many courses have contents.
    pub fn len(&self) -> (n: usize)
        ensures
            n == self.entries_view().len(),
    {
        self.entries.len()
    }

    /// Records `contents` as the contents of `course`, as a map insertion does:
    /// an entry for an equal course gets the new contents in its place, and
    /// its old contents are returned; otherwise the course is added last.
    /// Courses stay distinct.
    pub fn insert(&mut self, course: Course, contents: Vec<Content>) -> (r: Option<Vec<Content>>)
        ensures
            distinct_courses(final(self).entries_view()),
            match entry_index(old(self).entries_view(), course@) {
                Some(i) => {
                    &&& final(self).entries_view() == old(self).entries_view().update(
                        i,
                        (course@, contents@.map_values(|x: Content| x@)),
                    )
                    &&& r matches Some(prev) && prev@.map_values(|x: Content| x@) == old(self).entries_view()[i].1
                },
                None => {
                    &&& final(self).entries_view() == old(self).entries_view().push(
                        (course@, contents@.map_values(|x: Content| x@)),
                    )
                    &&& r is None
                },
            },
    {
        proof { use_type_invariant(&*self); }
        let mut entries: Vec<(Course, Vec<Content>)> = Vec::new();
        std::mem::swap(&mut entries, &mut self.entries);
        let ghost old_view = course_content_view(entries@);
        let ghost new_entry = (course@, contents@.map_values(|x: Content| x@));
        let mut i: usize = 0;
        while i < entries.len()
            invariant
                i <= entries@.len(),
                old_view == course_content_view(entries@),
                old_view == old(self).entries_view(),
                distinct_courses(old_view),
                new_entry == (course@, contents@.map_values(|x: Content| x@)),
                forall|k: int| 0 <= k < i ==> (#[trigger] old_view[k]).0 != course@,
            decreases entries.len() - i,
        {
            if same_course(&entries[i].0, &course) {
                assert(old_view[i as int].0 == course@);
                assert(entry_index(old_view, course@) == Some(i as int)) by {
                    let j = choose|j: int| 0 <= j < old_view.len() && (#[trigger] old_view[j]).0 == course@;
                    if j != i as int {
                        if j < i {
                        } else {
                            assert(old_view[i as int].0 != old_view[j].0);
                        }
                    }
                }
                let kept = entries[i].0.duplicate();
                let entry = (kept, contents);
                let ghost before = entries@;
                let prev = entries.remove(i);
                entries.insert(i, entry);
                proof {
                    assert(prev == before[i as int]);
                    assert(old_view[i as int].1 == before[i as int].1@.map_values(|x: Content| x@));
                    assert(old_view == old(self).entries_view());
                    assert(course_content_view(entries@) =~= old_view.update(i as int, new_entry));
                    assert(distinct_courses(course_content_view(entries@)));
                }
                self.entries = entries;
                return Some(prev.1);
            }
            i += 1;
        }
        assert(entry_index(old_view, course@) is None);
        entries.push((course, contents));
        proof {
            assert(course_content_view(entries@) =~= old_view.push(new_entry));
        }
        self.entries = entries;
        None
    }
}

/// Every item of every course, course by course and in content order.
pub fn collect_items(content: &CourseContent) -> (r: Vec<DownloadableItem>)
    ensures
        items_view(r@) == all_items(content.entries_view()),
        distinct_courses(content.entries_view()),
{
    proof { use_type_invariant(content); }
    let entries = &content.entries;
    let ghost cv = course_content_view(entries@);
    let mut out: Vec<DownloadableItem> = Vec::new();
    let mut i: usize = 0;
    assert(cv.take(0) =~= Seq::<(CourseView, Seq<ContentView>)>::empty());
    assert(items_view(out@) =~= Seq::<ItemView>::empty());
    while i < entries.len()
        invariant
            i <= entries.len(),
            cv == course_content_view(entries@),
            items_view(out@) == all_items(cv.take(i as int)),
        decreases entries.len() - i,
    {
        let course = &entries[i].0;
        let contents = &entries[i].1;
        let ghost before = items_view(out@);
        let mut j: usize = 0;
        while j < contents.len()
            invariant
                j <= contents.len(),
                i < entries.len(),
                course == &entries@[i as int].0,
                contents == &entries@[i as int].1,
                items_view(out@) == before + course_items(course@, contents@.map_values(|x: Content| x@).take(j as int)),
            decreases contents.len() - j,
        {
            let ghost prev = out@;
            let c = contents[j].duplicate();
            let item = DownloadableItem::new(course.duplicate(), c);
            out.push(item);
            let ghost cs = contents@.map_values(|x: Content| x@);
            assert(cs.take(j + 1) =~= cs.take(j as int).push(contents@[j as int]@));
            assert(course_items(course@, cs.take(j + 1)) =~= course_items(course@, cs.take(j as int)).push(item_spec(course@, contents@[j as int]@)));
            assert(items_view(out@) =~= items_view(prev).push(item@));
            assert(items_view(out@) =~= before + course_items(course@, cs.take(j + 1)));
            j += 1;
        }
        assert(contents@.map_values(|x: Content| x@).take(contents.len() as int) =~= contents@.map_values(|x: Content| x@));
        assert(cv.take(i + 1).drop_last() =~= cv.take(i as int));
        assert(cv.take(i + 1).last() == cv[i as int]);
        i += 1;
    }
    assert(cv.take(entries.len() as int) =~= cv);
    out
}

/// The items that are fetched: not videos, with a link, and not already on disk.
/// `existing[i]` tells whether item `i`'s target path exists.
pub open spec fn queued(items: Seq<ItemView>, existing: Seq<bool>) -> Seq<ItemView>
    decreases items.len(),
{
    if items.len() == 0 {
        Seq::empty()
    } else {
        let rest = queued(items.drop_last(), existing);
        let it = items.last();
        if it.content_type != ContentType::VoD && it.download_link is Some && !existing[items.len() - 1] {
            rest.push(it)
        } else {
            rest
        }
    }
}

/// Whether every item's link names an extension.
pub open spec fn links_have_extensions(items: Seq<ItemView>) -> bool {
    forall|i: int| 0 <= i < items.len() ==> link_has_extension(#[trigger] items[i].download_link)
}

/// Whether every item that may be stored, that is every item but the videos,
/// has a link that names an extension.
pub open spec fn stored_links_have_extensions(items: Seq<ItemView>) -> bool {
    forall|i: int| 0 <= i < items.len() && items[i].content_type != ContentType::VoD ==> link_has_extension(
        #[trigger] items[i].download_link,
    )
}

proof fn lemma_queued_prefix(items: Seq<ItemView>, existing: Seq<bool>, i: int)
    requires
        0 <= i < items.len(),
        existing.len() == items.len(),
    ensures
        queued(items.take(i + 1), existing) == {
            let it = items[i];
            if it.content_type != ContentType::VoD && it.download_link is Some && !existing[i] {
                queued(items.take(i), existing).push(it)
            } else {
                queued(items.take(i), existing)
            }
        },
{
    assert(items.take(i + 1).drop_last() == items.take(i));
}

/// Every item that is queued has a download link and is not a video, and the
/// links of queued items name an extension when those of all non-video items do.
pub proof fn lemma_queued_links(items: Seq<ItemView>, existing: Seq<bool>)
    requires
        stored_links_have_extensions(items),
    ensures
        links_have_extensions(queued(items, existing)),
        forall|i: int| 0 <= i < queued(items, existing).len() ==> (#[trigger] queued(items, existing)[i]).download_link is Some
            && queued(items, existing)[i].content_type != ContentType::VoD,
    decreases items.len(),
{
    if items.len() > 0 {
        let p = items.drop_last();
        assert forall|i: int| 0 <= i < p.len() && p[i].content_type != ContentType::VoD implies link_has_extension(#[trigger] p[i].download_link) by {
            assert(p[i] == items[i]);
        }
        lemma_queued_links(p, existing);
        assert(items[items.len() - 1] == items.last());
    }
}

/// Whether every item but the videos has a link that names an extension, as
/// working out where it is stored requires.
pub fn stored_links_ok(items: &Vec<DownloadableItem>) -> (b: bool)
    ensures
        b == stored_links_have_extensions(items_view(items@)),
{
    let mut i: usize = 0;
    while i < items.len()
        invariant
            i <= items.len(),
            forall|k: int| 0 <= k < i && items_view(items@)[k].content_type != ContentType::VoD ==> link_has_extension(
                #[trigger] items_view(items@)[k].download_link,
            ),
        decreases items.len() - i,
    {
        assert(items_view(items@)[i as int] == items@[i as int]@);
        if items[i].content_type != ContentType::VoD {
            match &items[i].download_link {
                Some(link) => {
                    let t = trim_str(link.as_str());
                    if !crate::text::contains_char(t.as_str(), '.') {
                        assert(!link_has_extension(items_view(items@)[i as int].download_link));
                        return false;
                    }
                },
                None => {},
            }
        }
        i += 1;
    }
    true
}

/// A source of download items.
pub trait Download {
    /// Every item to consider for download, in order.
    fn download_items(&self) -> Vec<DownloadableItem>;
}

impl Download for CourseContent {
    /// Every item of every course, course by course and in content order.
    fn download_items(&self) -> (r: Vec<DownloadableItem>)
        ensures
            items_view(r@) == all_items(self.entries_view()),
    {
        collect_items(self)
    }
}

/// The items to fetch: those that are not videos, have a download link and
/// whose target path does not exist yet (`existing[i]` for item `i`), in order.
pub fn plan_queue(items: Vec<DownloadableItem>, existing: &Vec<bool>) -> (r: Vec<DownloadableItem>)
    requires
        existing.len() == items.len(),
    ensures
        items_view(r@) == queued(items_view(items@), existing@),
        stored_links_have_extensions(items_view(items@)) ==> links_have_extensions(items_view(r@)),
{
    proof {
        if stored_links_have_extensions(items_view(items@)) {
            lemma_queued_links(items_view(items@), existing@);
        }
    }
    let ghost iv = items_view(items@);
    let mut out: Vec<DownloadableItem> = Vec::new();
    let mut i: usize = 0;
    assert(iv.take(0) =~= Seq::<ItemView>::empty());
    assert(items_view(out@) =~= Seq::<ItemView>::empty());
    while i < items.len()
        invariant
            i <= items.len() == existing.len(),
            iv == items_view(items@),
            items_view(out@) == queued(iv.take(i as int), existing@),
        decreases items.len() - i,
    {
        proof { lemma_queued_prefix(iv, existing@, i as int); }
        let it = &items[i];
        if it.content_type != ContentType::VoD && it.download_link.is_some() && !existing[i] {
            let ghost prev = out@;
            out.push(it.duplicate());
            assert(items_view(out@) =~= items_view(prev).push(iv[i as int]));
        }
        i += 1;
    }
    assert(iv.take(items.len() as int) =~= iv);
    out
}

/// The widest label, plus one, among `items`, counted in bytes; 0 for no items.
pub open spec fn widest_label(items: Seq<ItemView>) -> int
    decreases items.len(),
{
    if items.len() == 0 {
        0
    } else {
        let w: int = vstd::utf8::encode_utf8(item_label(items.last())).len() as int + 1;
        let rest = widest_label(items.drop_last());
        if w > rest {
            w
        } else {
            rest
        }
    }
}

/// The width that item labels are padded to: the widest label plus one.
pub fn max_prefix_len(items: &Vec<DownloadableItem>) -> (r: usize)
    ensures
        widest_label(items_view(items@)) <= usize::MAX ==> r == widest_label(items_view(items@)),
{
    let ghost iv = items_view(items@);
    let mut best: usize = 0;
    let mut i: usize = 0;
    assert(iv.take(0) =~= Seq::<ItemView>::empty());
    while i < items.len()
        invariant
            i <= items.len(),
            iv == items_view(items@),
            widest_label(iv.take(i as int)) <= usize::MAX ==> best == widest_label(iv.take(i as int)),
            best <= widest_label(iv.take(i as int)),
        decreases items.len() - i,
    {
        assert(iv.take(i + 1).drop_last() =~= iv.take(i as int));
        let label = items[i].label();
        let w = label.as_str().len().saturating_add(1);
        if w > best {
            best = w;
        }
        i += 1;
    }
    assert(iv.take(items.len() as int) =~= iv);
    best
}

} // verus!
