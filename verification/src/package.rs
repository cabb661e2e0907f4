//! The package record: one dependency of the document, with its version
//! constraint, optional index reference, optional extras and dev flag, and
//! its rendering into the target format's dependency-array entries.

use vstd::prelude::*;

verus! {

/// The mathematical model of a package record.
pub ghost struct PackageView {
    pub name: Seq<char>,
    pub version: Seq<char>,
    pub index: Option<Seq<char>>,
    pub extras: Option<Seq<Seq<char>>>,
    pub is_dev: bool,
}

/// One package entry of the document.
pub struct Package {
    /// The package's name; never empty for a well-formed line.
    pub name: String,
    /// The version constraint; the literal `*` means unconstrained and is
    /// suppressed on output.
    pub version: String,
    /// The name of the Source this package is fetched from, if any.
    pub index: Option<String>,
    /// The feature names enabled for the package, in their original order.
    pub extras: Option<Vec<String>>,
    /// Whether the package belongs to the dev group.
    pub is_dev: bool,
}

impl View for Package {
    type V = PackageView;

    open spec fn view(&self) -> PackageView {
        PackageView {
            name: self.name@,
            version: self.version@,
            index: self.index.deep_view(),
            extras: self.extras.deep_view(),
            is_dev: self.is_dev,
        }
    }
}

impl DeepView for Package {
    type V = PackageView;

    open spec fn deep_view(&self) -> PackageView {
        self.view()
    }
}

/// The extras joined with commas, in order, without added quotes.
pub open spec fn joined_extras(e: Seq<Seq<char>>) -> Seq<char>
    decreases e.len(),
{
    if e.len() == 0 {
        Seq::empty()
    } else if e.len() == 1 {
        e[0]
    } else {
        joined_extras(e.drop_last()) + ","@ + e.last()
    }
}

/// A package's dependency-array entry: the quoted name, the bracketed
/// comma-joined extras when present, and the version constraint unless it is
/// the unconstrained `*`.
pub open spec fn as_uv_spec(p: PackageView) -> Seq<char> {
    "\""@ + p.name + (match p.extras {
        Some(e) => "["@ + joined_extras(e) + "]"@,
        None => Seq::<char>::empty(),
    }) + (if p.version == "*"@ {
        Seq::<char>::empty()
    } else {
        p.version
    }) + "\""@
}

/// A package's line in the source-mapping table: `name = {index="…"}`.
pub open spec fn state_source_spec(p: PackageView) -> Seq<char>
    recommends
        p.index is Some,
{
    p.name + " = {index=\""@ + p.index->0 + "\"}"@
}

/// Rendering of a package into the target format.
pub trait UVPackage {
    /// The package record this value stands for.
    spec fn uv_view(&self) -> PackageView;

    /// The package's dependency-array entry.
    fn as_uv(&self) -> (r: String)
        ensures
            r@ == as_uv_spec(self.uv_view()),
    ;

    /// The package's `name = {index="…"}` line for the source-mapping table.
    fn state_source(&self) -> (r: String)
        requires
            self.uv_view().index is Some,
        ensures
            r@ == state_source_spec(self.uv_view()),
    ;
}

impl UVPackage for Package {
    open spec fn uv_view(&self) -> PackageView {
        self@
    }

    fn as_uv(&self) -> (r: String)
        ensures
            r@ == as_uv_spec(self.uv_view()),
    {
        let mut r = String::new();
        r.append("\"");
        r.append(self.name.as_str());
        match &self.extras {
            Some(ex) => {
                r.append("[");
                let ghost e = self.extras.deep_view()->0;
                let mut i: usize = 0;
                while i < ex.len()
                    invariant
                        0 <= i <= ex.len(),
                        e == ex.deep_view(),
                        e.len() == ex.len(),
                        r@ == "\""@ + self.name@ + "["@ + joined_extras(e.take(i as int)),
                    decreases ex.len() - i,
                {
                    if i > 0 {
                        r.append(",");
                    }
                    r.append(ex[i].as_str());
                    proof {
                        let t = e.take(i + 1);
                        assert(t.last() == e[i as int]);
                        if i == 0 {
                            assert(joined_extras(t) == e[0]);
                        } else {
                            assert(t.drop_last() =~= e.take(i as int));
                            assert(joined_extras(t) == joined_extras(e.take(i as int)) + ","@
                                + e[i as int]);
                        }
                    }
                    i += 1;
                }
                proof {
                    assert(e.take(e.len() as int) =~= e);
                }
                r.append("]");
            },
            None => {},
        }
        if !crate::strutil::str_eq(self.version.as_str(), "*") {
            r.append(self.version.as_str());
        }
        r.append("\"");
        r
    }

    fn state_source(&self) -> (r: String)
        ensures
            r@ == state_source_spec(self.uv_view()),
    {
        let mut r = String::new();
        r.append(self.name.as_str());
        r.append(" = {index=\"");
        match &self.index {
            Some(ix) => r.append(ix.as_str()),
            None => {},
        }
        r.append("\"}");
        r
    }
}

} // verus!
