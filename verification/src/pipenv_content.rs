//! The document model — all parsed records of one manifest — and its
//! serialization into the target format: project preamble, dependency
//! array, dev dependency group, index tables and source-mapping table.

use vstd::prelude::*;

use crate::package::{as_uv_spec, state_source_spec, Package, PackageView, UVPackage};
use crate::pipenv::{Pipenv, PipenvView};
use crate::source::{source_as_uv_spec, Source, SourceView, UVSource};

verus! {

/// The mathematical model of a parsed document.
pub ghost struct ContentView {
    pub sources: Seq<SourceView>,
    pub packages: Seq<PackageView>,
    pub pipenv: PipenvView,
}

/// The aggregate of all records parsed out of one manifest. Immutable after
/// parsing; serialization only reads it.
pub struct PipenvContent {
    /// All source declarations, in first-seen order.
    pub sources: Vec<Source>,
    /// All packages, dev and non-dev interleaved, in first-seen order.
    pub packages: Vec<Package>,
    /// The interpreter settings.
    pub pipenv: Pipenv,
}

impl View for PipenvContent {
    type V = ContentView;

    open spec fn view(&self) -> ContentView {
        ContentView {
            sources: self.sources.deep_view(),
            packages: self.packages.deep_view(),
            pipenv: self.pipenv@,
        }
    }
}

/// The packages of the dev group, in their original relative order.
pub open spec fn dev_seq(ps: Seq<PackageView>) -> Seq<PackageView>
    decreases ps.len(),
{
    if ps.len() == 0 {
        Seq::empty()
    } else {
        dev_seq(ps.drop_last()) + (if ps.last().is_dev {
            seq![ps.last()]
        } else {
            Seq::<PackageView>::empty()
        })
    }
}

/// The packages outside the dev group, in their original relative order.
pub open spec fn nondev_seq(ps: Seq<PackageView>) -> Seq<PackageView>
    decreases ps.len(),
{
    if ps.len() == 0 {
        Seq::empty()
    } else {
        nondev_seq(ps.drop_last()) + (if !ps.last().is_dev {
            seq![ps.last()]
        } else {
            Seq::<PackageView>::empty()
        })
    }
}

/// The non-dev packages that carry an index reference, in their original
/// relative order. Dev packages never appear here, index or not.
pub open spec fn indexed_seq(ps: Seq<PackageView>) -> Seq<PackageView>
    decreases ps.len(),
{
    if ps.len() == 0 {
        Seq::empty()
    } else {
        indexed_seq(ps.drop_last()) + (if !ps.last().is_dev && ps.last().index is Some {
            seq![ps.last()]
        } else {
            Seq::<PackageView>::empty()
        })
    }
}

/// One dependency-array line: a tab, the package's entry, a comma and a
/// newline.
pub open spec fn dep_entry(p: PackageView) -> Seq<char> {
    "\t"@ + as_uv_spec(p) + ",\n"@
}

/// The dependency-array lines of the given packages, in order.
pub open spec fn dep_lines(ps: Seq<PackageView>) -> Seq<char>
    decreases ps.len(),
{
    if ps.len() == 0 {
        Seq::empty()
    } else {
        dep_lines(ps.drop_last()) + dep_entry(ps.last())
    }
}

/// The fixed project preamble of every output document.
pub open spec fn project_preamble() -> Seq<char> {
    "[project]\nname = \"type-your-project-name-here\"\nversion = \"0.1.0\"\ndescription = \"Add your description here\"\nreadme = \"README.md\""@
}

/// The project section: preamble, interpreter-version line, and the
/// dependency array of the non-dev packages in document order.
pub open spec fn project_part_spec(c: ContentView) -> Seq<char> {
    project_preamble() + "\n"@ + "requires-python = \""@ + c.pipenv.python_version + "\"\n"@
        + "dependencies = [\n"@ + dep_lines(nondev_seq(c.packages)) + "]\n"@
}

/// The dev dependency group: the `dev` array of the given packages.
pub open spec fn dev_group_spec(ds: Seq<PackageView>) -> Seq<char> {
    "[dependency-groups]\n"@ + "dev = [\n"@ + dep_lines(ds) + "]\n"@
}

/// The index tables of the given sources, in order, each followed by a
/// blank line.
pub open spec fn index_tables_spec(ss: Seq<SourceView>) -> Seq<char>
    decreases ss.len(),
{
    if ss.len() == 0 {
        Seq::empty()
    } else {
        index_tables_spec(ss.drop_last()) + "[[tool.uv.index]]\n"@ + source_as_uv_spec(ss.last())
            + "\n\n"@
    }
}

/// The source-mapping lines of the given indexed packages, in order.
pub open spec fn source_lines_spec(ix: Seq<PackageView>) -> Seq<char>
    decreases ix.len(),
{
    if ix.len() == 0 {
        Seq::empty()
    } else {
        source_lines_spec(ix.drop_last()) + state_source_spec(ix.last()) + "\n"@
    }
}

/// The sources section: one index table per source, then — only when some
/// package carries an index reference — the source-mapping table.
pub open spec fn sources_part_spec(ss: Seq<SourceView>, ix: Seq<PackageView>) -> Seq<char> {
    index_tables_spec(ss) + (if ix.len() > 0 {
        "[tool.uv.sources]\n"@ + source_lines_spec(ix)
    } else {
        Seq::<char>::empty()
    })
}

/// The whole output document: the project section, the dev group when any
/// dev package exists, and the sources section when any source exists, each
/// followed by a blank line.
pub open spec fn export_spec(c: ContentView) -> Seq<char> {
    project_part_spec(c) + "\n"@ + (if dev_seq(c.packages).len() > 0 {
        dev_group_spec(dev_seq(c.packages)) + "\n"@
    } else {
        Seq::<char>::empty()
    }) + (if c.sources.len() > 0 {
        sources_part_spec(c.sources, indexed_seq(c.packages)) + "\n"@
    } else {
        Seq::<char>::empty()
    })
}

/// Serialization of a parsed document into the target format.
pub trait PipenvUVInterface {
    /// The document this value stands for.
    spec fn content(&self) -> ContentView;

    /// Renders the whole output document.
    fn export(&self) -> (r: String)
        ensures
            r@ == export_spec(self.content()),
    ;

    /// Renders the project section, and collects the dev packages and the
    /// non-dev indexed packages for the later sections.
    fn _export_project_part(&self) -> (r: (String, Vec<&Package>, Vec<&Package>))
        ensures
            r.0@ == project_part_spec(self.content()),
            r.1.deep_view() == dev_seq(self.content().packages),
            r.2.deep_view() == indexed_seq(self.content().packages),
    ;

    /// Renders the dev dependency group of the given packages.
    fn _prepare_dev_dependencies(&self, dev_dependencies: Vec<&Package>) -> (r: String)
        ensures
            r@ == dev_group_spec(dev_dependencies.deep_view()),
    ;

    /// Renders the sources section for the given indexed packages.
    fn _prepare_sources(&self, indexed_packages: Vec<&Package>) -> (r: String)
        requires
            forall|j: int|
                0 <= j < indexed_packages.deep_view().len()
                    ==> (#[trigger] indexed_packages.deep_view()[j]).index is Some,
        ensures
            r@ == sources_part_spec(self.content().sources, indexed_packages.deep_view()),
    ;
}

/// Every package collected as indexed carries an index reference.
pub proof fn lemma_indexed_seq_has_index(ps: Seq<PackageView>)
    ensures
        forall|j: int|
            0 <= j < indexed_seq(ps).len() ==> (#[trigger] indexed_seq(ps)[j]).index is Some,
    decreases ps.len(),
{
    if ps.len() > 0 {
        lemma_indexed_seq_has_index(ps.drop_last());
    }
}

impl PipenvUVInterface for PipenvContent {
    open spec fn content(&self) -> ContentView {
        self@
    }

    fn _export_project_part(&self) -> (r: (String, Vec<&Package>, Vec<&Package>))
        ensures
            r.0@ == project_part_spec(self.content()),
            r.1.deep_view() == dev_seq(self.content().packages),
            r.2.deep_view() == indexed_seq(self.content().packages),
    {
        let ghost ps = self.packages.deep_view();
        let mut resulting_lines = String::new();
        resulting_lines.append(
            "[project]\nname = \"type-your-project-name-here\"\nversion = \"0.1.0\"\ndescription = \"Add your description here\"\nreadme = \"README.md\"",
        );
        resulting_lines.append("\n");
        resulting_lines.append("requires-python = \"");
        resulting_lines.append(self.pipenv.python_version.as_str());
        resulting_lines.append("\"\n");
        resulting_lines.append("dependencies = [\n");

        let mut dev_dependencies: Vec<&Package> = Vec::new();
        let mut indexed_packages: Vec<&Package> = Vec::new();
        let ghost header = project_preamble() + "\n"@ + "requires-python = \""@
            + self.pipenv.python_version@ + "\"\n"@ + "dependencies = [\n"@;
        proof {
            assert(resulting_lines@ =~= header);
            assert(ps.take(0) =~= Seq::<PackageView>::empty());
        }
        let mut i: usize = 0;
        while i < self.packages.len()
            invariant
                0 <= i <= self.packages.len(),
                ps == self.packages.deep_view(),
                ps.len() == self.packages.len(),
                resulting_lines@ == header + dep_lines(nondev_seq(ps.take(i as int))),
                dev_dependencies.deep_view() == dev_seq(ps.take(i as int)),
                indexed_packages.deep_view() == indexed_seq(ps.take(i as int)),
            decreases self.packages.len() - i,
        {
            let package: &Package = &self.packages[i];
            let ghost prev_dev = dev_dependencies.deep_view();
            let ghost prev_ix = indexed_packages.deep_view();
            let ghost prev_r = resulting_lines@;
            proof {
                assert(ps.take(i + 1).drop_last() =~= ps.take(i as int));
                assert(ps.take(i + 1).last() == ps[i as int]);
            }
            if package.is_dev {
                dev_dependencies.push(package);
                proof {
                    assert(dev_dependencies.deep_view() =~= prev_dev + seq![ps[i as int]]);
                    assert(resulting_lines@ =~= header + dep_lines(nondev_seq(ps.take(i + 1))));
                }
            } else {
                resulting_lines.append("\t");
                let entry = package.as_uv();
                resulting_lines.append(entry.as_str());
                resulting_lines.append(",\n");
                if package.index.is_some() {
                    indexed_packages.push(package);
                    proof {
                        assert(indexed_packages.deep_view() =~= prev_ix + seq![ps[i as int]]);
                    }
                }
                proof {
                    assert(nondev_seq(ps.take(i + 1)) =~= nondev_seq(ps.take(i as int)) + seq![
                        ps[i as int],
                    ]);
                    assert(dep_lines(nondev_seq(ps.take(i as int)) + seq![ps[i as int]])
                        == dep_lines(nondev_seq(ps.take(i as int))) + dep_entry(ps[i as int])) by {
                        let s = nondev_seq(ps.take(i as int)) + seq![ps[i as int]];
                        assert(s.drop_last() =~= nondev_seq(ps.take(i as int)));
                        assert(s.last() == ps[i as int]);
                    }
                    assert(resulting_lines@ =~= header + dep_lines(nondev_seq(ps.take(i + 1))));
                    assert(dev_dependencies.deep_view() =~= dev_seq(ps.take(i + 1)));
                }
            }
            proof {
                assert(dev_dependencies.deep_view() =~= dev_seq(ps.take(i + 1)));
                assert(indexed_packages.deep_view() =~= indexed_seq(ps.take(i + 1)));
            }
            i += 1;
        }
        resulting_lines.append("]\n");
        proof {
            assert(ps.take(ps.len() as int) =~= ps);
            assert(resulting_lines@ =~= project_part_spec(self.content()));
        }
        (resulting_lines, dev_dependencies, indexed_packages)
    }

    fn _prepare_dev_dependencies(&self, dev_dependencies: Vec<&Package>) -> (r: String)
        ensures
            r@ == dev_group_spec(dev_dependencies.deep_view()),
    {
        let ghost ds = dev_dependencies.deep_view();
        let mut resulting_lines = String::new();
        resulting_lines.append("[dependency-groups]\n");
        resulting_lines.append("dev = [\n");
        let ghost header = "[dependency-groups]\n"@ + "dev = [\n"@;
        proof {
            assert(resulting_lines@ =~= header);
            assert(ds.take(0) =~= Seq::<PackageView>::empty());
        }
        let mut i: usize = 0;
        while i < dev_dependencies.len()
            invariant
                0 <= i <= dev_dependencies.len(),
                ds == dev_dependencies.deep_view(),
                ds.len() == dev_dependencies.len(),
                resulting_lines@ == header + dep_lines(ds.take(i as int)),
            decreases dev_dependencies.len() - i,
        {
            let package: &Package = dev_dependencies[i];
            resulting_lines.append("\t");
            let entry = package.as_uv();
            resulting_lines.append(entry.as_str());
            resulting_lines.append(",\n");
            proof {
                assert(ds.take(i + 1).drop_last() =~= ds.take(i as int));
                assert(ds.take(i + 1).last() == ds[i as int]);
                assert(resulting_lines@ =~= header + dep_lines(ds.take(i + 1)));
            }
            i += 1;
        }
        resulting_lines.append("]\n");
        proof {
            assert(ds.take(ds.len() as int) =~= ds);
            assert(resulting_lines@ =~= dev_group_spec(ds));
        }
        resulting_lines
    }

    fn _prepare_sources(&self, indexed_packages: Vec<&Package>) -> (r: String)
        ensures
            r@ == sources_part_spec(self.content().sources, indexed_packages.deep_view()),
    {
        let ghost ss = self.sources.deep_view();
        let ghost ix = indexed_packages.deep_view();
        let mut resulting_lines = String::new();
        proof {
            assert(resulting_lines@ =~= Seq::<char>::empty());
            assert(ss.take(0) =~= Seq::<SourceView>::empty());
            assert(resulting_lines@ =~= index_tables_spec(ss.take(0)));
        }
        let mut i: usize = 0;
        while i < self.sources.len()
            invariant
                0 <= i <= self.sources.len(),
                ss == self.sources.deep_view(),
                ss.len() == self.sources.len(),
                resulting_lines@ == index_tables_spec(ss.take(i as int)),
            decreases self.sources.len() - i,
        {
            let source: &Source = &self.sources[i];
            resulting_lines.append("[[tool.uv.index]]\n");
            let body = source.as_uv();
            resulting_lines.append(body.as_str());
            resulting_lines.append("\n\n");
            proof {
                assert(ss.take(i + 1).drop_last() =~= ss.take(i as int));
                assert(ss.take(i + 1).last() == ss[i as int]);
                assert(resulting_lines@ =~= index_tables_spec(ss.take(i + 1)));
            }
            i += 1;
        }
        proof {
            assert(ss.take(ss.len() as int) =~= ss);
        }
        if indexed_packages.len() > 0 {
            resulting_lines.append("[tool.uv.sources]\n");
            let ghost header = index_tables_spec(ss) + "[tool.uv.sources]\n"@;
            proof {
                assert(resulting_lines@ =~= header);
                assert(ix.take(0) =~= Seq::<PackageView>::empty());
            }
            let mut j: usize = 0;
            while j < indexed_packages.len()
                invariant
                    0 <= j <= indexed_packages.len(),
                    ix == indexed_packages.deep_view(),
                    ix.len() == indexed_packages.len(),
                    forall|t: int| 0 <= t < ix.len() ==> (#[trigger] ix[t]).index is Some,
                    resulting_lines@ == header + source_lines_spec(ix.take(j as int)),
                decreases indexed_packages.len() - j,
            {
                let dependant_package: &Package = indexed_packages[j];
                proof {
                    assert(dependant_package.uv_view() == ix[j as int]);
                }
                let ln = dependant_package.state_source();
                resulting_lines.append(ln.as_str());
                resulting_lines.append("\n");
                proof {
                    assert(ix.take(j + 1).drop_last() =~= ix.take(j as int));
                    assert(ix.take(j + 1).last() == ix[j as int]);
                    assert(resulting_lines@ =~= header + source_lines_spec(ix.take(j + 1)));
                }
                j += 1;
            }
            proof {
                assert(ix.take(ix.len() as int) =~= ix);
                assert(resulting_lines@ =~= sources_part_spec(ss, ix));
            }
        }
        resulting_lines
    }

    fn export(&self) -> (r: String)
        ensures
            r@ == export_spec(self.content()),
    {
        let mut resulting_lines = String::new();
        let (project_lines, dev_dependencies, indexed_packages) = self._export_project_part();
        resulting_lines.append(project_lines.as_str());
        resulting_lines.append("\n");

        let ghost c = self.content();
        let has_dev = dev_dependencies.len() > 0;
        if has_dev {
            let dev_dependencies_lines = self._prepare_dev_dependencies(dev_dependencies);
            resulting_lines.append(dev_dependencies_lines.as_str());
            resulting_lines.append("\n");
        }
        if self.sources.len() > 0 {
            proof {
                lemma_indexed_seq_has_index(c.packages);
            }
            let sources_lines = self._prepare_sources(indexed_packages);
            resulting_lines.append(sources_lines.as_str());
            resulting_lines.append("\n");
        }
        proof {
            assert(resulting_lines@ =~= export_spec(c));
        }
        resulting_lines
    }
}

} // verus!
