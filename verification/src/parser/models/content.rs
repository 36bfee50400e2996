//! Course content items: their kind, the item itself and its builder.
use vstd::prelude::*;
use crate::text::{trim, trim_start, trim_end, lowercase, ascii_lowercase, all_ascii, trim_str, to_lowercase};

verus! {

broadcast use vstd::string::group_string_axioms;

/// The kind of a content item on a course page.
#[derive(Debug, Clone, Copy, Default, Hash, PartialEq, Eq, PartialOrd, Ord, Structural)]
pub enum ContentType {
    Exam,
    ExamSolution,
    LectureSlides,
    TutorialNotes,
    SupplementaryNotes,
    Assignment,
    AssignmentSolution,
    LabManual,
    Project,
    VoD,
    #[default]
    Other,
}

/// The name under which a content type is shown (and stored on disk).
pub open spec fn content_type_label(t: ContentType) -> Seq<char> {
    match t {
        ContentType::Exam => "Exam"@,
        ContentType::ExamSolution => "Exam Solution"@,
        ContentType::LectureSlides => "Lecture Slides"@,
        ContentType::TutorialNotes => "Tutorial Notes"@,
        ContentType::SupplementaryNotes => "Supplementary Notes"@,
        ContentType::Assignment => "Assignment"@,
        ContentType::AssignmentSolution => "Assignment Solution"@,
        ContentType::LabManual => "Lab Manual"@,
        ContentType::Project => "Project"@,
        ContentType::VoD => "VoD"@,
        ContentType::Other => "Other"@,
    }
}

/// The content type that a lower-case keyword names; anything else is `Other`.
pub open spec fn content_type_of(keyword: Seq<char>) -> ContentType {
    if keyword == "exam"@ {
        ContentType::Exam
    } else if keyword == "exam solution"@ {
        ContentType::ExamSolution
    } else if keyword == "lecture slides"@ {
        ContentType::LectureSlides
    } else if keyword == "tutorial notes"@ {
        ContentType::TutorialNotes
    } else if keyword == "supplementary notes"@ {
        ContentType::SupplementaryNotes
    } else if keyword == "assignment"@ {
        ContentType::Assignment
    } else if keyword == "assignment solution"@ {
        ContentType::AssignmentSolution
    } else if keyword == "lab manual"@ {
        ContentType::LabManual
    } else if keyword == "project"@ {
        ContentType::Project
    } else if keyword == "vod"@ {
        ContentType::VoD
    } else {
        ContentType::Other
    }
}

/// The content type that a raw label names: trimmed, lower-cased, then looked up.
pub open spec fn content_type_from_label(s: Seq<char>) -> ContentType {
    content_type_of(lowercase(trim(s)))
}

fn keyword_is(s: &String, keyword: &str) -> (b: bool)
    ensures
        b == (s@ == keyword@),
{
    let k = String::from_str(keyword);
    *s == k
}

impl ContentType {
    /// The name under which this content type is shown.
    pub fn label(&self) -> (r: String)
        ensures
            r@ == content_type_label(*self),
    {
        match self {
            ContentType::Exam => String::from_str("Exam"),
            ContentType::ExamSolution => String::from_str("Exam Solution"),
            ContentType::LectureSlides => String::from_str("Lecture Slides"),
            ContentType::TutorialNotes => String::from_str("Tutorial Notes"),
            ContentType::SupplementaryNotes => String::from_str("Supplementary Notes"),
            ContentType::Assignment => String::from_str("Assignment"),
            ContentType::AssignmentSolution => String::from_str("Assignment Solution"),
            ContentType::LabManual => String::from_str("Lab Manual"),
            ContentType::Project => String::from_str("Project"),
            ContentType::VoD => String::from_str("VoD"),
            ContentType::Other => String::from_str("Other"),
        }
    }

    /// Reads a content type from a label: surrounding whitespace and case do
    /// not matter; an unknown label gives `Other`.
    pub fn from_label(s: &str) -> (r: ContentType)
        ensures
            r == content_type_from_label(s@),
            all_ascii(trim(s@)) ==> r == content_type_of(ascii_lowercase(trim(s@))),
    {
        let t = trim_str(s);
        let l = to_lowercase(t.as_str());
        if keyword_is(&l, "exam") {
            ContentType::Exam
        } else if keyword_is(&l, "exam solution") {
            ContentType::ExamSolution
        } else if keyword_is(&l, "lecture slides") {
            ContentType::LectureSlides
        } else if keyword_is(&l, "tutorial notes") {
            ContentType::TutorialNotes
        } else if keyword_is(&l, "supplementary notes") {
            ContentType::SupplementaryNotes
        } else if keyword_is(&l, "assignment") {
            ContentType::Assignment
        } else if keyword_is(&l, "assignment solution") {
            ContentType::AssignmentSolution
        } else if keyword_is(&l, "lab manual") {
            ContentType::LabManual
        } else if keyword_is(&l, "project") {
            ContentType::Project
        } else if keyword_is(&l, "vod") {
            ContentType::VoD
        } else {
            ContentType::Other
        }
    }
}

impl<'a> From<&'a str> for ContentType {
    fn from(s: &'a str) -> (r: ContentType) {
        ContentType::from_label(s)
    }
}

impl<'a> vstd::std_specs::convert::FromSpecImpl<&'a str> for ContentType {
    open spec fn obeys_from_spec() -> bool {
        true
    }

    open spec fn from_spec(s: &'a str) -> ContentType {
        content_type_from_label(s@)
    }
}

/// A content item of a course page.
#[derive(Debug, Clone, Default, Hash, PartialEq, Eq, PartialOrd, Ord)]
pub struct Content {
    pub title: String,
    pub content_type: ContentType,
    pub description: Option<String>,
    pub download_link: Option<String>,
}

/// A content item as plain values.
pub struct ContentView {
    pub title: Seq<char>,
    pub content_type: ContentType,
    pub description: Option<Seq<char>>,
    pub download_link: Option<Seq<char>>,
}

impl View for Content {
    type V = ContentView;

    open spec fn view(&self) -> ContentView {
        ContentView {
            title: self.title@,
            content_type: self.content_type,
            description: self.description.deep_view(),
            download_link: self.download_link.deep_view(),
        }
    }
}

/// A copy of an optional text.
pub fn clone_opt_string(o: &Option<String>) -> (r: Option<String>)
    ensures
        r == *o,
{
    match o {
        Some(s) => Some(s.clone()),
        None => None,
    }
}

impl Content {
    /// A copy of this item.
    pub fn duplicate(&self) -> (r: Content)
        ensures
            r == *self,
    {
        Content {
            title: self.title.clone(),
            content_type: self.content_type,
            description: clone_opt_string(&self.description),
            download_link: clone_opt_string(&self.download_link),
        }
    }
}

/// Builds a `Content`: title and type first, description and link optionally.
pub struct ContentBuilder {
    title: String,
    content_type: ContentType,
    description: Option<String>,
    download_link: Option<String>,
}

impl ContentBuilder {
    /// The item that `build` would give now.
    pub closed spec fn spec_content(&self) -> Content {
        Content {
            title: self.title,
            content_type: self.content_type,
            description: self.description,
            download_link: self.download_link,
        }
    }

    /// A builder for an item with this title and type, and no description or link.
    pub fn new(title: String, content_type: ContentType) -> (b: Self)
        ensures
            b.spec_content() == (Content { title, content_type, description: None, download_link: None }),
    {
        ContentBuilder { title, content_type, description: None, download_link: None }
    }

    /// Sets the description.
    pub fn description(&mut self, description: String) -> (r: &mut Self)
        ensures
            r.spec_content() == (Content { description: Some(description), ..old(self).spec_content() }),
            final(self).spec_content() == final(r).spec_content(),
    {
        self.description = Some(description);
        self
    }

    /// Sets the download link.
    pub fn download_link(&mut self, download_link: String) -> (r: &mut Self)
        ensures
            r.spec_content() == (Content { download_link: Some(download_link), ..old(self).spec_content() }),
            final(self).spec_content() == final(r).spec_content(),
    {
        self.download_link = Some(download_link);
        self
    }

    /// The item built so far.
    pub fn build(self) -> (c: Content)
        ensures
            c == self.spec_content(),
    {
        Content {
            title: self.title,
            content_type: self.content_type,
            description: self.description,
            download_link: self.download_link,
        }
    }
}

/// Every content type is read back from its own label: `ContentType::from_label`
/// applied to `t.label()` gives `t` (the label is ASCII, so the lower-casing of
/// `from_label` is the ASCII one).
pub proof fn lemma_label_roundtrip(t: ContentType)
    ensures
        all_ascii(trim(content_type_label(t))),
        content_type_of(ascii_lowercase(trim(content_type_label(t)))) == t,
{
    reveal_strlit("Exam"); reveal_strlit("exam");
    reveal_strlit("Exam Solution"); reveal_strlit("exam solution");
    reveal_strlit("Lecture Slides"); reveal_strlit("lecture slides");
    reveal_strlit("Tutorial Notes"); reveal_strlit("tutorial notes");
    reveal_strlit("Supplementary Notes"); reveal_strlit("supplementary notes");
    reveal_strlit("Assignment"); reveal_strlit("assignment");
    reveal_strlit("Assignment Solution"); reveal_strlit("assignment solution");
    reveal_strlit("Lab Manual"); reveal_strlit("lab manual");
    reveal_strlit("Project"); reveal_strlit("project");
    reveal_strlit("VoD"); reveal_strlit("vod");
    reveal_strlit("Other");
    let l = content_type_label(t);
    assert(trim_start(l) == l);
    assert(trim_end(l) == l);
    let k = ascii_lowercase(l);
    match t {
        ContentType::Exam => {
            assert(k =~= "exam"@);
        }
        ContentType::ExamSolution => {
            assert(k =~= "exam solution"@);
        }
        ContentType::LectureSlides => {
            assert(k =~= "lecture slides"@);
        }
        ContentType::TutorialNotes => {
            assert(k =~= "tutorial notes"@);
            assert(k[0] != "lecture slides"@[0]);
        }
        ContentType::SupplementaryNotes => {
            assert(k =~= "supplementary notes"@);
        }
        ContentType::Assignment => {
            assert(k =~= "assignment"@);
        }
        ContentType::AssignmentSolution => {
            assert(k =~= "assignment solution"@);
            assert(k[0] != "supplementary notes"@[0]);
        }
        ContentType::LabManual => {
            assert(k =~= "lab manual"@);
            assert(k[0] != "assignment"@[0]);
        }
        ContentType::Project => {
            assert(k =~= "project"@);
        }
        ContentType::VoD => {
            assert(k =~= "vod"@);
        }
        ContentType::Other => {
            assert(k.len() == 5);
            assert(k != "exam"@ && k != "vod"@ && k != "project"@ && k != "assignment"@);
            assert(k != "exam solution"@ && k != "lecture slides"@ && k != "tutorial notes"@);
            assert(k != "supplementary notes"@ && k != "assignment solution"@ && k != "lab manual"@);
        }
    }
}

} // verus!
