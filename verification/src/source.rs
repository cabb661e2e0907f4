//! The source record: a named package index with its url and an inert SSL
//! verification token, and its rendering into an index table of the target
//! format.

use vstd::prelude::*;

verus! {

/// The mathematical model of a source record.
pub ghost struct SourceView {
    pub name: Seq<char>,
    pub url: Seq<char>,
    pub verify_ssl: Option<Seq<char>>,
}

/// One source (index) declaration of the document.
pub struct Source {
    /// The source's name; it doubles as an index identifier.
    pub name: String,
    /// The index url.
    pub url: String,
    /// The `"true"`/`"false"` token of the legacy format; recorded but not
    /// translated into output syntax.
    pub verify_ssl: Option<String>,
}

impl View for Source {
    type V = SourceView;

    open spec fn view(&self) -> SourceView {
        SourceView { name: self.name@, url: self.url@, verify_ssl: self.verify_ssl.deep_view() }
    }
}

impl DeepView for Source {
    type V = SourceView;

    open spec fn deep_view(&self) -> SourceView {
        self.view()
    }
}

/// A source's index-table body: its name line, its url line and the trailing
/// `explicit = true` marker. The `verify_ssl` token does not influence the
/// output text.
pub open spec fn source_as_uv_spec(s: SourceView) -> Seq<char> {
    "name = \""@ + s.name + "\"\nurl = \""@ + s.url + "\"\nexplicit = true"@
}

/// Rendering of a source into the target format.
pub trait UVSource {
    /// The source record this value stands for.
    spec fn uv_view(&self) -> SourceView;

    /// The body of the source's index table.
    fn as_uv(&self) -> (r: String)
        ensures
            r@ == source_as_uv_spec(self.uv_view()),
    ;
}

impl UVSource for Source {
    open spec fn uv_view(&self) -> SourceView {
        self@
    }

    fn as_uv(&self) -> (r: String)
        ensures
            r@ == source_as_uv_spec(self.uv_view()),
    {
        let mut r = String::new();
        r.append("name = \"");
        r.append(self.name.as_str());
        r.append("\"\nurl = \"");
        r.append(self.url.as_str());
        r.append("\"\nexplicit = true");
        r
    }
}

} // verus!
