//! The dependency-check report: which of a script's required programs were
//! not found, and the diagnostic text for them. Probing `$PATH` itself is
//! the caller's work; this module only judges and words the results.

use vstd::prelude::*;
use vstd::string::*;

verus! {

/// The outcome of checking a list of dependencies: the names whose lookup
/// failed, in the order they were checked.
pub struct Dependencies {
    failed_deps: Vec<String>,
}

/// The names of the failed lookups among `results` (a name paired with
/// whether it was found), in order.
pub open spec fn failed_of(results: Seq<(String, bool)>) -> Seq<String>
    decreases results.len(),
{
    if results.len() == 0 {
        Seq::empty()
    } else if results[0].1 {
        failed_of(results.drop_first())
    } else {
        seq![results[0].0] + failed_of(results.drop_first())
    }
}

/// Appending one more result appends its name exactly when it failed.
proof fn lemma_failed_of_push(results: Seq<(String, bool)>, x: (String, bool))
    ensures
        failed_of(results.push(x)) == if x.1 {
            failed_of(results)
        } else {
            failed_of(results).push(x.0)
        },
    decreases results.len(),
{
    let p = results.push(x);
    if results.len() == 0 {
        assert(p.drop_first() =~= Seq::<(String, bool)>::empty());
        if !x.1 {
            assert(seq![x.0] + failed_of(p.drop_first()) =~= failed_of(results).push(x.0));
        }
    } else {
        assert(p[0] == results[0]);
        assert(p.drop_first() =~= results.drop_first().push(x));
        lemma_failed_of_push(results.drop_first(), x);
        if !x.1 {
            if !results[0].1 {
                assert(seq![results[0].0] + failed_of(results.drop_first()).push(x.0)
                    =~= (seq![results[0].0] + failed_of(results.drop_first())).push(x.0));
            }
        }
    }
}

/// One line of the multi-failure report.
pub open spec fn dep_line_model(dep: Seq<char>) -> Seq<char> {
    "    "@ + dep + "\n"@
}

/// The per-dependency lines of the multi-failure report.
pub open spec fn dep_lines_model(deps: Seq<String>) -> Seq<char>
    decreases deps.len(),
{
    if deps.len() == 0 {
        Seq::empty()
    } else {
        dep_line_model(deps[0]@) + dep_lines_model(deps.drop_first())
    }
}

/// Appending one more dependency appends its line.
proof fn lemma_dep_lines_push(deps: Seq<String>, x: String)
    ensures
        dep_lines_model(deps.push(x)) == dep_lines_model(deps) + dep_line_model(x@),
    decreases deps.len(),
{
    let p = deps.push(x);
    if deps.len() == 0 {
        assert(p.drop_first() =~= Seq::<String>::empty());
        assert(dep_line_model(x@) + dep_lines_model(p.drop_first()) =~= Seq::<char>::empty()
            + dep_line_model(x@));
    } else {
        assert(p[0] == deps[0]);
        assert(p.drop_first() =~= deps.drop_first().push(x));
        lemma_dep_lines_push(deps.drop_first(), x);
        assert(dep_line_model(deps[0]@) + (dep_lines_model(deps.drop_first()) + dep_line_model(
            x@,
        )) =~= (dep_line_model(deps[0]@) + dep_lines_model(deps.drop_first())) + dep_line_model(
            x@,
        ));
    }
}

/// The report's text: empty when nothing failed, one sentence for a single
/// failure, a header and one indented line per name otherwise.
pub open spec fn deps_message_model(failed: Seq<String>) -> Seq<char> {
    if failed.len() == 0 {
        Seq::empty()
    } else if failed.len() == 1 {
        "Required dependency '"@ + failed[0]@ + "' not found in $PATH\n"@
    } else {
        "These required dependencies were not found in $PATH:\n"@ + dep_lines_model(failed)
    }
}

impl Dependencies {
    /// The failed names this report holds.
    pub closed spec fn view(&self) -> Seq<String> {
        self.failed_deps@
    }

    /// Collects the dependencies whose lookup failed, keeping their order.
    pub fn from_results(results: &Vec<(String, bool)>) -> (d: Dependencies)
        ensures
            d@ == failed_of(results@),
    {
        let mut failed_deps: Vec<String> = Vec::new();
        let n = results.len();
        let mut i: usize = 0;
        proof {
            assert(results@.take(0) =~= Seq::<(String, bool)>::empty());
        }
        while i < n
            invariant
                0 <= i <= n,
                n == results@.len(),
                failed_deps@ == failed_of(results@.take(i as int)),
            decreases n - i,
        {
            proof {
                assert(results@.take(i + 1) =~= results@.take(i as int).push(results@[i as int]));
                lemma_failed_of_push(results@.take(i as int), results@[i as int]);
            }
            if !results[i].1 {
                let name = results[i].0.clone();
                failed_deps.push(name);
            }
            i += 1;
        }
        proof {
            assert(results@.take(n as int) =~= results@);
        }
        Dependencies { failed_deps }
    }

    /// How many dependencies were not found.
    pub fn failed_count(&self) -> (r: usize)
        ensures
            r == self@.len(),
    {
        self.failed_deps.len()
    }

    /// The names that were not found, in the order they were checked.
    pub fn failed(&self) -> (r: &Vec<String>)
        ensures
            r@ == self@,
    {
        &self.failed_deps
    }

    /// The report's diagnostic text.
    pub fn message(&self) -> (r: String)
        ensures
            r@ == deps_message_model(self@),
    {
        if self.failed_deps.len() == 0 {
            String::new()
        } else if self.failed_deps.len() == 1 {
            let mut buf = String::from_str("Required dependency '");
            buf.append(self.failed_deps[0].as_str());
            buf.append("' not found in $PATH\n");
            proof {
                assert(buf@ =~= deps_message_model(self@));
            }
            buf
        } else {
            let mut buf = String::from_str(
                "These required dependencies were not found in $PATH:\n",
            );
            let ghost header = "These required dependencies were not found in $PATH:\n"@;
            let n = self.failed_deps.len();
            let mut i: usize = 0;
            proof {
                assert(self.failed_deps@.take(0) =~= Seq::<String>::empty());
                assert(buf@ =~= header + dep_lines_model(self.failed_deps@.take(0)));
            }
            while i < n
                invariant
                    0 <= i <= n,
                    n == self.failed_deps@.len(),
                    buf@ == header + dep_lines_model(self.failed_deps@.take(i as int)),
                decreases n - i,
            {
                proof {
                    assert(self.failed_deps@.take(i + 1) =~= self.failed_deps@.take(
                        i as int,
                    ).push(self.failed_deps@[i as int]));
                    lemma_dep_lines_push(
                        self.failed_deps@.take(i as int),
                        self.failed_deps@[i as int],
                    );
                }
                buf.append("    ");
                buf.append(self.failed_deps[i].as_str());
                buf.append("\n");
                proof {
                    assert(buf@ =~= header + dep_lines_model(self.failed_deps@.take(i + 1)));
                }
                i += 1;
            }
            proof {
                assert(self.failed_deps@.take(n as int) =~= self.failed_deps@);
                assert(n >= 2);
            }
            buf
        }
    }
}

} // verus!
