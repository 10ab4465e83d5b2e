//! The supported shell dialects, their escaping and assignment syntax, and
//! the recursive emitter that renders a parsed invocation into shell code.

use vstd::prelude::*;
use vstd::string::*;

use crate::error::{Error, ErrorModel};
use crate::ident_type::{pattern_matches, pattern_source, rule_of, IdentType};
use crate::invocation::{all_text, val_str, vals_strs, ArgumentResult, Invocation};
use crate::text::{push_char, str_eq, trim_end, trim_end_model, u64_to_dec, dec_str};

verus! {

/// One of the five supported shell dialects. Selected once per compiler
/// invocation and never mutated.
#[derive(Clone)]
pub enum Shell {
    Bash,
    Elvish,
    Fish,
    PowerShell,
    Zsh,
}

/// What a single quote inside a single-quoted literal is replaced with.
pub open spec fn quote_replacement(shell: Shell) -> Seq<char> {
    match shell {
        Shell::Fish => seq!['\\', '\''],
        Shell::Bash | Shell::Elvish | Shell::Zsh => seq!['\'', '"', '\'', '"', '\''],
        Shell::PowerShell => seq!['\'', '\''],
    }
}

/// `s` with every single quote replaced by the dialect's replacement: the
/// part of a string literal between the enclosing quotes.
pub open spec fn escape_body_model(shell: Shell, s: Seq<char>) -> Seq<char>
    decreases s.len(),
{
    if s.len() == 0 {
        Seq::empty()
    } else {
        (if s[0] == '\'' {
            quote_replacement(shell)
        } else {
            seq![s[0]]
        }) + escape_body_model(shell, s.drop_first())
    }
}

/// The dialect's single-quoted string literal for `s`.
pub open spec fn str_escape_model(shell: Shell, s: Seq<char>) -> Seq<char> {
    seq!['\''] + escape_body_model(shell, s) + seq!['\'']
}

/// Escaping a concatenation escapes each part.
pub proof fn lemma_escape_body_append(shell: Shell, a: Seq<char>, b: Seq<char>)
    ensures
        escape_body_model(shell, a + b) == escape_body_model(shell, a) + escape_body_model(
            shell,
            b,
        ),
    decreases a.len(),
{
    if a.len() == 0 {
        assert(a + b =~= b);
        assert(escape_body_model(shell, a) + escape_body_model(shell, b) =~= escape_body_model(
            shell,
            b,
        ));
    } else {
        assert((a + b)[0] == a[0]);
        assert((a + b).drop_first() =~= a.drop_first() + b);
        lemma_escape_body_append(shell, a.drop_first(), b);
        let u = if a[0] == '\'' {
            quote_replacement(shell)
        } else {
            seq![a[0]]
        };
        assert(u + (escape_body_model(shell, a.drop_first()) + escape_body_model(shell, b)) =~= (u
            + escape_body_model(shell, a.drop_first())) + escape_body_model(shell, b));
    }
}

/// The opening delimiter of the dialect's array literal.
pub open spec fn array_open_model(shell: Shell) -> Seq<char> {
    match shell {
        Shell::Fish => Seq::empty(),
        Shell::Bash | Shell::Zsh => seq!['('],
        Shell::Elvish => seq!['['],
        Shell::PowerShell => seq!['@', '('],
    }
}

/// The closing delimiter of the dialect's array literal.
pub open spec fn array_close_model(shell: Shell) -> Seq<char> {
    match shell {
        Shell::Fish => Seq::empty(),
        Shell::Bash | Shell::Zsh | Shell::PowerShell => seq![')'],
        Shell::Elvish => seq![']'],
    }
}

/// What stands between two adjacent array items.
pub open spec fn array_sep_model(shell: Shell) -> Seq<char> {
    match shell {
        Shell::PowerShell => seq![',', ' '],
        Shell::Bash | Shell::Elvish | Shell::Fish | Shell::Zsh => seq![' '],
    }
}

/// The escaped items joined by the dialect's separator, without the
/// enclosing delimiters.
pub open spec fn array_body_model(shell: Shell, items: Seq<Seq<char>>) -> Seq<char>
    decreases items.len(),
{
    if items.len() == 0 {
        Seq::empty()
    } else if items.len() == 1 {
        str_escape_model(shell, items[0])
    } else {
        str_escape_model(shell, items[0]) + array_sep_model(shell) + array_body_model(
            shell,
            items.drop_first(),
        )
    }
}

/// The dialect's array literal for the given items.
pub open spec fn array_escape_model(shell: Shell, items: Seq<Seq<char>>) -> Seq<char> {
    array_open_model(shell) + array_body_model(shell, items) + array_close_model(shell)
}

/// Appending one more item appends a separator and the escaped item.
pub proof fn lemma_array_body_push(shell: Shell, items: Seq<Seq<char>>, x: Seq<char>)
    requires
        items.len() >= 1,
    ensures
        array_body_model(shell, items.push(x)) == array_body_model(shell, items)
            + array_sep_model(shell) + str_escape_model(shell, x),
    decreases items.len(),
{
    let p = items.push(x);
    assert(p[0] == items[0]);
    assert(p.drop_first() =~= items.drop_first().push(x));
    if items.len() == 1 {
        assert(p.drop_first() =~= seq![x]);
        assert(array_body_model(shell, seq![x]) == str_escape_model(shell, x));
        assert(str_escape_model(shell, items[0]) + array_sep_model(shell) + str_escape_model(
            shell,
            x,
        ) =~= array_body_model(shell, items) + array_sep_model(shell) + str_escape_model(
            shell,
            x,
        ));
    } else {
        lemma_array_body_push(shell, items.drop_first(), x);
        assert(str_escape_model(shell, p[0]) + array_sep_model(shell) + ((array_body_model(
            shell,
            items.drop_first(),
        ) + array_sep_model(shell)) + str_escape_model(shell, x)) =~= (str_escape_model(
            shell,
            items[0],
        ) + array_sep_model(shell) + array_body_model(shell, items.drop_first()))
            + array_sep_model(shell) + str_escape_model(shell, x));
    }
}

impl Shell {
    /// Wraps `s` in single quotes, escaping embedded single quotes as the
    /// dialect requires.
    pub fn str_escape(&self, s: &str) -> (r: String)
        ensures
            r@ == str_escape_model(*self, s@),
    {
        let mut buf = String::new();
        push_char(&mut buf, '\'');
        let n = s.unicode_len();
        let mut i: usize = 0;
        proof {
            assert(s@.take(0) =~= Seq::<char>::empty());
            assert(buf@ =~= seq!['\''] + escape_body_model(*self, s@.take(0)));
        }
        while i < n
            invariant
                0 <= i <= n,
                n == s@.len(),
                buf@ == seq!['\''] + escape_body_model(*self, s@.take(i as int)),
            decreases n - i,
        {
            let c = s.get_char(i);
            let ghost pre = s@.take(i as int);
            let ghost unit = seq![s@[i as int]];
            proof {
                assert(s@.take(i + 1) =~= pre + unit);
                lemma_escape_body_append(*self, pre, unit);
                assert(unit.drop_first() =~= Seq::<char>::empty());
            }
            if c == '\'' {
                match self {
                    Shell::Fish => buf.append("\\'"),
                    Shell::Bash | Shell::Elvish | Shell::Zsh => buf.append("'\"'\"'"),
                    Shell::PowerShell => buf.append("''"),
                }
                proof {
                    reveal_strlit("\\'");
                    reveal_strlit("'\"'\"'");
                    reveal_strlit("''");
                    assert(unit.len() == 1 && unit[0] == '\'');
                    assert(escape_body_model(*self, unit) == quote_replacement(*self)
                        + escape_body_model(*self, unit.drop_first()));
                    assert(escape_body_model(*self, unit) =~= quote_replacement(*self));
                }
            } else {
                push_char(&mut buf, c);
                proof {
                    assert(unit.len() == 1 && unit[0] == c && c != '\'');
                    assert(escape_body_model(*self, unit) == seq![unit[0]]
                        + escape_body_model(*self, unit.drop_first()));
                    assert(escape_body_model(*self, unit) =~= unit);
                }
            }
            proof {
                assert(buf@ =~= seq!['\''] + escape_body_model(*self, s@.take(i + 1)));
            }
            i += 1;
        }
        push_char(&mut buf, '\'');
        proof {
            assert(s@.take(n as int) =~= s@);
            assert(buf@ =~= str_escape_model(*self, s@));
        }
        buf
    }

    /// Renders the items as the dialect's array literal: delimiters around
    /// the escaped items, separated as the dialect requires.
    pub fn array_escape(&self, xs: &Vec<String>) -> (r: String)
        ensures
            r@ == array_escape_model(*self, xs.deep_view()),
    {
        let ghost items = xs.deep_view();
        let mut buf = match self {
            Shell::Fish => String::new(),
            Shell::Bash | Shell::Zsh => String::from_str("("),
            Shell::Elvish => String::from_str("["),
            Shell::PowerShell => String::from_str("@("),
        };
        proof {
            reveal_strlit("(");
            reveal_strlit("[");
            reveal_strlit("@(");
            assert(items.take(0) =~= Seq::<Seq<char>>::empty());
            assert(buf@ =~= array_open_model(*self) + array_body_model(*self, items.take(0)));
        }
        let len = xs.len();
        let mut i: usize = 0;
        while i < len
            invariant
                0 <= i <= len,
                len == xs@.len(),
                items == xs.deep_view(),
                buf@ == array_open_model(*self) + array_body_model(*self, items.take(i as int)),
            decreases len - i,
        {
            proof {
                assert(items.take(i + 1) =~= items.take(i as int).push(items[i as int]));
                assert(items[i as int] == xs@[i as int]@);
            }
            if i > 0 {
                match self {
                    Shell::PowerShell => buf.append(", "),
                    Shell::Bash | Shell::Elvish | Shell::Fish | Shell::Zsh => buf.append(" "),
                }
                proof {
                    reveal_strlit(", ");
                    reveal_strlit(" ");
                    lemma_array_body_push(*self, items.take(i as int), items[i as int]);
                }
            } else {
                proof {
                    assert(array_body_model(*self, items.take(1)) == str_escape_model(
                        *self,
                        items[0],
                    ));
                }
            }
            let esc = self.str_escape(xs[i].as_str());
            buf.append(esc.as_str());
            proof {
                assert(buf@ =~= array_open_model(*self) + array_body_model(
                    *self,
                    items.take(i + 1),
                ));
            }
            i += 1;
        }
        match self {
            Shell::Bash | Shell::PowerShell | Shell::Zsh => push_char(&mut buf, ')'),
            Shell::Elvish => push_char(&mut buf, ']'),
            Shell::Fish => {},
        }
        proof {
            reveal_strlit(")");
            reveal_strlit("]");
            assert(items.take(len as int) =~= items);
            assert(buf@ =~= array_escape_model(*self, items));
        }
        buf
    }

    /// The dialect's statement assigning the (already escaped) value `val`
    /// to the variable `var_ident`.
    pub fn assignment(&self, var_ident: &str, val: &str) -> (r: String)
        ensures
            r@ == assignment_model(*self, var_ident@, val@),
    {
        match self {
            Shell::Fish => {
                let mut buf = String::from_str("set ");
                buf.append(var_ident);
                buf.append(" ");
                buf.append(val);
                proof {
                    assert(buf@ =~= assignment_model(*self, var_ident@, val@));
                }
                buf
            },
            Shell::Bash | Shell::Zsh => {
                let mut buf = String::from_str(var_ident);
                buf.append("=");
                buf.append(val);
                proof {
                    assert(buf@ =~= assignment_model(*self, var_ident@, val@));
                }
                buf
            },
            Shell::Elvish => {
                let mut buf = String::from_str(var_ident);
                buf.append(" = ");
                buf.append(val);
                proof {
                    assert(buf@ =~= assignment_model(*self, var_ident@, val@));
                }
                buf
            },
            Shell::PowerShell => {
                let mut buf = String::from_str("Set-Variable -Name ");
                let escaped_name = self.str_escape(var_ident);
                buf.append(escaped_name.as_str());
                buf.append(" -Value ");
                buf.append(val);
                proof {
                    assert(buf@ =~= assignment_model(*self, var_ident@, val@));
                }
                buf
            },
        }
    }

    /// Checks an identifier fragment against the rule its position class
    /// selects for this dialect. An empty candidate is always accepted: the
    /// fragments that must not be empty never are by construction.
    pub fn ident_check<'a>(&self, s: &'a str, ident_type: &IdentType) -> (r: Result<
        &'a str,
        Error,
    >)
        ensures
            r is Ok <==> ident_ok(*self, *ident_type, s@),
            r is Ok ==> r->Ok_0@ == s@,
            r is Err ==> r->Err_0.model() == ident_err_model(*self, *ident_type, s@),
    {
        let re = ident_type.re(self);
        if s.is_empty() || re.is_match(s) {
            Ok(s)
        } else {
            Err(
                Error::InvalidIdentifier {
                    ident: String::from_str(s),
                    pattern: String::from_str(re.source()),
                },
            )
        }
    }

    /// Renders the argument blocks of one level, in insertion order.
    #[verifier::loop_isolation(false)]
    fn render_args(
        &self,
        args: &Vec<(String, ArgumentResult)>,
        vprefix: &str,
        subcommands_ident: &str,
    ) -> (r: Result<String, Error>)
        ensures
            res_matches(r, render_args_model(*self, vprefix@, subcommands_ident@, args@)),
    {
        let ghost whole = render_args_model(*self, vprefix@, subcommands_ident@, args@);
        let mut buf = String::new();
        proof {
            assert(args@.skip(0) =~= args@);
            match whole {
                Ok(rest) => {
                    assert(Seq::<char>::empty() + rest =~= rest);
                },
                Err(_) => {},
            }
        }
        let len = args.len();
        let mut i: usize = 0;
        while i < len
            invariant
                0 <= i <= len,
                whole == (match render_args_model(
                    *self,
                    vprefix@,
                    subcommands_ident@,
                    args@.skip(i as int),
                ) {
                    Ok(rest) => Ok::<Seq<char>, ErrorModel>(buf@ + rest),
                    Err(e) => Err::<Seq<char>, ErrorModel>(e),
                }),
            decreases len - i,
        {
            let ghost tail = args@.skip(i as int);
            proof {
                assert(tail[0] == args@[i as int]);
                assert(tail.drop_first() =~= args@.skip(i + 1));
            }
            let name: &String = &args[i].0;
            let arg: &ArgumentResult = &args[i].1;
            let ghost buf_before = buf@;
            match self.render_one_arg(name, arg, vprefix, subcommands_ident) {
                Ok(lines) => {
                    buf.append(lines.as_str());
                },
                Err(e) => {
                    return Err(e);
                },
            }
            proof {
                let lines = arg_lines_model(
                    *self,
                    vprefix@,
                    subcommands_ident@,
                    name@,
                    args@[i as int].1,
                );
                match render_args_model(*self, vprefix@, subcommands_ident@, args@.skip(i + 1)) {
                    Ok(rest) => {
                        assert((buf_before + lines) + rest =~= buf_before + (lines + rest));
                    },
                    Err(e) => {},
                }
            }
            i += 1;
        }
        proof {
            assert(args@.skip(len as int) =~= Seq::<(String, ArgumentResult)>::empty());
            assert(buf@ + Seq::<char>::empty() =~= buf@);
        }
        Ok(buf)
    }

    /// Renders the three assignment lines of a single argument, after
    /// checking its name against the Tail rule and its values for text.
    fn render_one_arg(
        &self,
        name: &String,
        arg: &ArgumentResult,
        vprefix: &str,
        subcommands_ident: &str,
    ) -> (r: Result<String, Error>)
        ensures
            r is Ok ==> ident_ok(*self, IdentType::Tail, name@) && all_text(arg.vals@)
                && r->Ok_0@ == arg_lines_model(
                *self,
                vprefix@,
                subcommands_ident@,
                name@,
                *arg,
            ),
            r is Err ==> !(ident_ok(*self, IdentType::Tail, name@) && all_text(arg.vals@))
                && r->Err_0.model() == (if !ident_ok(*self, IdentType::Tail, name@) {
                ident_err_model(*self, IdentType::Tail, name@)
            } else {
                ErrorModel::NonTextValue
            }),
    {
        match self.ident_check(name.as_str(), &IdentType::Tail) {
            Ok(_) => {},
            Err(e) => {
                return Err(e);
            },
        }
        let mut buf = String::new();

        let occ = u64_to_dec(arg.occurs);
        let occ_esc = self.str_escape(occ.as_str());
        let mut lhs = synth_ident(vprefix, subcommands_ident, name.as_str());
        lhs.append("_occurs");
        let stmt = self.assignment(lhs.as_str(), occ_esc.as_str());
        push_line(&mut buf, &stmt);

        let idx_strs = self.index_strings(&arg.indices);
        let idx_arr = self.array_escape(&idx_strs);
        let mut lhs = synth_ident(vprefix, subcommands_ident, name.as_str());
        lhs.append("_indices");
        let stmt = self.assignment(lhs.as_str(), idx_arr.as_str());
        push_line(&mut buf, &stmt);

        let val_strs = match self.text_values(&arg.vals) {
            Ok(v) => v,
            Err(e) => {
                return Err(e);
            },
        };
        let vals_arr = self.array_escape(&val_strs);
        let mut lhs = synth_ident(vprefix, subcommands_ident, name.as_str());
        lhs.append("_vals");
        let stmt = self.assignment(lhs.as_str(), vals_arr.as_str());
        push_line(&mut buf, &stmt);

        proof {
            assert(buf@ =~= arg_lines_model(
                *self,
                vprefix@,
                subcommands_ident@,
                name@,
                *arg,
            ));
        }
        Ok(buf)
    }

    /// The decimal renderings of the argv positions, as strings.
    fn index_strings(&self, indices: &Vec<u64>) -> (r: Vec<String>)
        ensures
            r.deep_view() == indices_strs(indices@),
    {
        let mut out: Vec<String> = Vec::new();
        let len = indices.len();
        let mut j: usize = 0;
        while j < len
            invariant
                0 <= j <= len,
                len == indices@.len(),
                out.deep_view() == indices_strs(indices@.take(j as int)),
            decreases len - j,
        {
            let ghost prev = out.deep_view();
            let s = u64_to_dec(indices[j]);
            out.push(s);
            proof {
                let cur = out.deep_view();
                let target = indices_strs(indices@.take(j + 1));
                assert(prev.len() == j);
                assert(out@.len() == j + 1);
                assert(cur.len() == j + 1);
                assert(target.len() == j + 1);
                assert forall|k: int| 0 <= k < cur.len() implies cur[k] == target[k] by {
                    assert(target[k] == dec_str(indices@.take(j + 1)[k] as nat));
                    assert(indices@.take(j + 1)[k] == indices@[k]);
                    if k < j {
                        assert(cur[k] == prev[k]);
                        assert(prev[k] == indices_strs(indices@.take(j as int))[k]);
                        assert(indices@.take(j as int)[k] == indices@[k]);
                    }
                }
                assert(cur =~= target);
            }
            j += 1;
        }
        proof {
            assert(indices@.take(len as int) =~= indices@);
        }
        out
    }

    /// The recorded values as strings, or `NonTextValue` if any of them is
    /// not representable as text.
    fn text_values(&self, vals: &Vec<Option<String>>) -> (r: Result<Vec<String>, Error>)
        ensures
            r is Ok ==> all_text(vals@) && r->Ok_0.deep_view() == vals_strs(vals@),
            r is Err ==> !all_text(vals@) && r->Err_0.model() == ErrorModel::NonTextValue,
    {
        let mut out: Vec<String> = Vec::new();
        let len = vals.len();
        let mut j: usize = 0;
        while j < len
            invariant
                0 <= j <= len,
                len == vals@.len(),
                forall|t: int| 0 <= t < j ==> vals@[t] is Some,
                out.deep_view() == vals_strs(vals@.take(j as int)),
            decreases len - j,
        {
            let ghost prev = out.deep_view();
            match &vals[j] {
                Some(s) => {
                    out.push(s.clone());
                    proof {
                        let cur = out.deep_view();
                        let target = vals_strs(vals@.take(j + 1));
                        assert(prev.len() == j);
                        assert(out@.len() == j + 1);
                        assert(cur.len() == j + 1);
                        assert(target.len() == j + 1);
                        assert forall|k: int| 0 <= k < cur.len() implies cur[k] == target[k] by {
                            assert(target[k] == val_str(vals@.take(j + 1)[k]));
                            assert(vals@.take(j + 1)[k] == vals@[k]);
                            if k < j {
                                assert(cur[k] == prev[k]);
                                assert(prev[k] == vals_strs(vals@.take(j as int))[k]);
                                assert(vals@.take(j as int)[k] == vals@[k]);
                            }
                        }
                        assert(cur =~= target);
                    }
                },
                None => {
                    proof {
                        assert(!all_text(vals@));
                    }
                    return Err(Error::NonTextValue);
                },
            }
            j += 1;
        }
        proof {
            assert(vals@.take(len as int) =~= vals@);
            assert(all_text(vals@));
        }
        Ok(out)
    }

    /// Renders one level of the invocation tree and everything below it.
    fn parse_(
        &self,
        matches: &Invocation,
        vprefix: &str,
        subcommands_ident: &str,
        root: bool,
    ) -> (r: Result<String, Error>)
        ensures
            res_matches(
                r,
                render_level_model(*self, *matches, vprefix@, subcommands_ident@, root),
            ),
        decreases *matches,
    {
        if !subcommands_ident.is_empty() {
            match self.ident_check(subcommands_ident, &IdentType::Tail) {
                Ok(_) => {},
                Err(e) => {
                    return Err(e);
                },
            }
        }
        let ghost success_part: Seq<char> = if root {
            line_model(
                assignment_model(
                    *self,
                    vprefix@ + "success"@,
                    str_escape_model(*self, "true"@),
                ),
            )
        } else {
            Seq::<char>::empty()
        };
        let mut buffer = String::new();
        if root {
            let esc = self.str_escape("true");
            let mut lhs = String::from_str(vprefix);
            lhs.append("success");
            let stmt = self.assignment(lhs.as_str(), esc.as_str());
            push_line(&mut buffer, &stmt);
        }
        proof {
            assert(buffer@ =~= success_part);
        }
        let ghost usage_part: Seq<char> = if matches.usage is Some {
            line_model(
                assignment_model(
                    *self,
                    vprefix@ + subcommands_ident@ + "usage"@,
                    str_escape_model(*self, matches.usage->Some_0@),
                ),
            )
        } else {
            Seq::<char>::empty()
        };
        match &matches.usage {
            Some(u) => {
                let esc = self.str_escape(u.as_str());
                let lhs = synth_ident(vprefix, subcommands_ident, "usage");
                let stmt = self.assignment(lhs.as_str(), esc.as_str());
                push_line(&mut buffer, &stmt);
            },
            None => {},
        }
        proof {
            assert(buffer@ =~= success_part + usage_part);
        }
        match &matches.subcommand {
            Some(sub) => {
                let esc = self.str_escape(sub.name.as_str());
                let lhs = synth_ident(vprefix, subcommands_ident, "subcommand");
                let stmt = self.assignment(lhs.as_str(), esc.as_str());
                push_line(&mut buffer, &stmt);
                let mut child_infix = String::from_str(subcommands_ident);
                child_infix.append(sub.name.as_str());
                child_infix.append("_");
                match self.parse_(&sub.matches, vprefix, child_infix.as_str(), false) {
                    Ok(sub_out) => {
                        buffer.append(sub_out.as_str());
                    },
                    Err(e) => {
                        return Err(e);
                    },
                }
            },
            None => {},
        }
        match self.render_args(&matches.args, vprefix, subcommands_ident) {
            Ok(args_out) => {
                buffer.append(args_out.as_str());
                Ok(buffer)
            },
            Err(e) => Err(e),
        }
    }

    /// Renders the full invocation tree into the dialect's shell code: one
    /// assignment statement per line, in the order the levels produce them,
    /// with trailing whitespace trimmed from the final result.
    pub fn parse(&self, matches: Invocation, var_prefix: Option<&str>) -> (r: Result<
        String,
        Error,
    >)
        ensures
            res_matches(r, parse_model(*self, matches, var_prefix)),
    {
        let vprefix: &str = match var_prefix {
            Some(p) => p,
            None => "",
        };
        proof {
            reveal_strlit("");
            assert(""@ =~= Seq::<char>::empty());
        }
        if !vprefix.is_empty() {
            match self.ident_check(vprefix, &IdentType::Head) {
                Ok(_) => {},
                Err(e) => {
                    return Err(e);
                },
            }
        }
        match self.parse_(&matches, vprefix, "", true) {
            Ok(out) => Ok(trim_end(out.as_str())),
            Err(e) => Err(e),
        }
    }

    /// The dialect named by a selection token, or `UnsupportedDialect` for
    /// any token outside the supported set.
    pub fn try_from(s: &str) -> (r: Result<Shell, Error>)
        ensures
            match shell_for_token(s@) {
                Some(shell) => r is Ok && r->Ok_0 == shell,
                None => r is Err && r->Err_0 is UnsupportedDialect,
            },
    {
        if str_eq(s, "bash") {
            Ok(Shell::Bash)
        } else if str_eq(s, "elvish") {
            Ok(Shell::Elvish)
        } else if str_eq(s, "fish") {
            Ok(Shell::Fish)
        } else if str_eq(s, "pwsh") {
            Ok(Shell::PowerShell)
        } else if str_eq(s, "zsh") {
            Ok(Shell::Zsh)
        } else {
            Err(Error::UnsupportedDialect)
        }
    }
}

/// Whether `s` may stand as an identifier fragment of the given position
/// class: empty, or a full match of the dialect's rule.
pub open spec fn ident_ok(shell: Shell, t: IdentType, s: Seq<char>) -> bool {
    s.len() == 0 || pattern_matches(rule_of(t, shell), s)
}

/// The error `ident_check` reports for a rejected fragment.
pub open spec fn ident_err_model(shell: Shell, t: IdentType, s: Seq<char>) -> ErrorModel {
    ErrorModel::InvalidIdentifier { ident: s, pattern: pattern_source(rule_of(t, shell)) }
}

/// The dialect each selection token names.
pub open spec fn shell_for_token(s: Seq<char>) -> Option<Shell> {
    if s == "bash"@ {
        Some(Shell::Bash)
    } else if s == "elvish"@ {
        Some(Shell::Elvish)
    } else if s == "fish"@ {
        Some(Shell::Fish)
    } else if s == "pwsh"@ {
        Some(Shell::PowerShell)
    } else if s == "zsh"@ {
        Some(Shell::Zsh)
    } else {
        None
    }
}

/// One emitted line: a statement followed by a line break.
pub open spec fn line_model(stmt: Seq<char>) -> Seq<char> {
    stmt.push('\n')
}

/// The decimal renderings of the argv positions of one argument.
pub open spec fn indices_strs(indices: Seq<u64>) -> Seq<Seq<char>> {
    indices.map_values(|x: u64| dec_str(x as nat))
}

/// The three lines emitted for one argument: occurrence count, argv
/// positions, values.
pub open spec fn arg_lines_model(
    shell: Shell,
    vprefix: Seq<char>,
    infix: Seq<char>,
    name: Seq<char>,
    arg: ArgumentResult,
) -> Seq<char> {
    line_model(
        assignment_model(
            shell,
            vprefix + infix + name + "_occurs"@,
            str_escape_model(shell, dec_str(arg.occurs as nat)),
        ),
    ) + line_model(
        assignment_model(
            shell,
            vprefix + infix + name + "_indices"@,
            array_escape_model(shell, indices_strs(arg.indices@)),
        ),
    ) + line_model(
        assignment_model(
            shell,
            vprefix + infix + name + "_vals"@,
            array_escape_model(shell, vals_strs(arg.vals@)),
        ),
    )
}

/// The argument blocks of one level in insertion order, or the first error:
/// a name that fails the Tail rule, then a value that is not text.
pub open spec fn render_args_model(
    shell: Shell,
    vprefix: Seq<char>,
    infix: Seq<char>,
    args: Seq<(String, ArgumentResult)>,
) -> Result<Seq<char>, ErrorModel>
    decreases args.len(),
{
    if args.len() == 0 {
        Ok(Seq::empty())
    } else {
        let name = args[0].0@;
        let arg = args[0].1;
        if !ident_ok(shell, IdentType::Tail, name) {
            Err(ident_err_model(shell, IdentType::Tail, name))
        } else if !all_text(arg.vals@) {
            Err(ErrorModel::NonTextValue)
        } else {
            match render_args_model(shell, vprefix, infix, args.drop_first()) {
                Ok(rest) => Ok(arg_lines_model(shell, vprefix, infix, name, arg) + rest),
                Err(e) => Err(e),
            }
        }
    }
}

/// The rendering of one invocation level and of everything below it, or
/// the first error. The emitted order is: success sentinel (root only),
/// usage line, subcommand line, the whole subcommand block, then this
/// level's argument blocks.
pub open spec fn render_level_model(
    shell: Shell,
    inv: Invocation,
    vprefix: Seq<char>,
    infix: Seq<char>,
    root: bool,
) -> Result<Seq<char>, ErrorModel>
    decreases inv,
{
    if !ident_ok(shell, IdentType::Tail, infix) {
        Err(ident_err_model(shell, IdentType::Tail, infix))
    } else {
        let success_part = if root {
            line_model(
                assignment_model(
                    shell,
                    vprefix + "success"@,
                    str_escape_model(shell, "true"@),
                ),
            )
        } else {
            Seq::<char>::empty()
        };
        let usage_part = match inv.usage {
            Some(u) => line_model(
                assignment_model(
                    shell,
                    vprefix + infix + "usage"@,
                    str_escape_model(shell, u@),
                ),
            ),
            None => Seq::<char>::empty(),
        };
        match inv.subcommand {
            Some(sub) => {
                let sub_line = line_model(
                    assignment_model(
                        shell,
                        vprefix + infix + "subcommand"@,
                        str_escape_model(shell, sub.name@),
                    ),
                );
                match render_level_model(
                    shell,
                    *sub.matches,
                    vprefix,
                    infix + sub.name@ + "_"@,
                    false,
                ) {
                    Ok(sub_out) => match render_args_model(shell, vprefix, infix, inv.args@) {
                        Ok(args_out) => Ok(
                            success_part + usage_part + sub_line + sub_out + args_out,
                        ),
                        Err(e) => Err(e),
                    },
                    Err(e) => Err(e),
                }
            },
            None => match render_args_model(shell, vprefix, infix, inv.args@) {
                Ok(args_out) => Ok(success_part + usage_part + args_out),
                Err(e) => Err(e),
            },
        }
    }
}

/// The full rendering of an invocation tree: prefix validation, the
/// recursive descent from the root, and the final trim.
pub open spec fn parse_model(shell: Shell, inv: Invocation, var_prefix: Option<&str>) -> Result<
    Seq<char>,
    ErrorModel,
> {
    let vp = match var_prefix {
        Some(p) => p@,
        None => Seq::<char>::empty(),
    };
    if !ident_ok(shell, IdentType::Head, vp) {
        Err(ident_err_model(shell, IdentType::Head, vp))
    } else {
        match render_level_model(shell, inv, vp, Seq::empty(), true) {
            Ok(out) => Ok(trim_end_model(out)),
            Err(e) => Err(e),
        }
    }
}

/// Whether an executable result agrees with a spec-level one, value for
/// value and error for error.
pub open spec fn res_matches(r: Result<String, Error>, m: Result<Seq<char>, ErrorModel>) -> bool {
    match r {
        Ok(s) => m is Ok && s@ == m->Ok_0,
        Err(e) => m is Err && e.model() == m->Err_0,
    }
}

/// Appends a statement and a line break to the buffer.
fn push_line(buf: &mut String, stmt: &String)
    ensures
        final(buf)@ == old(buf)@ + line_model(stmt@),
{
    buf.append(stmt.as_str());
    push_char(buf, '\n');
    proof {
        assert((old(buf)@ + stmt@).push('\n') =~= old(buf)@ + line_model(stmt@));
    }
}

/// The concatenation of three identifier fragments.
fn synth_ident(vprefix: &str, infix: &str, suffix: &str) -> (r: String)
    ensures
        r@ == vprefix@ + infix@ + suffix@,
{
    let mut buf = String::from_str(vprefix);
    buf.append(infix);
    buf.append(suffix);
    buf
}

/// The dialect's assignment statement for an identifier and an already
/// escaped value.
pub open spec fn assignment_model(shell: Shell, var_ident: Seq<char>, val: Seq<char>) -> Seq<
    char,
> {
    match shell {
        Shell::Fish => "set "@ + var_ident + " "@ + val,
        Shell::Bash | Shell::Zsh => var_ident + "="@ + val,
        Shell::Elvish => var_ident + " = "@ + val,
        Shell::PowerShell => "Set-Variable -Name "@ + str_escape_model(shell, var_ident)
            + " -Value "@ + val,
    }
}

} // verus!
