//! Log formats and the variables they use.

use vstd::prelude::*;
use crate::ast::directive::strings_view;
use crate::parser::lexer::close_brace;
use crate::text::{
    char_is_alphanumeric, chars_of, first_where, is_alphanumeric, lemma_first_where,
    lemma_first_where_is, string_of,
};

verus! {

/// A `log_format`: its name, its pattern, and the variables of the pattern.
#[derive(Debug, PartialEq)]
pub struct LogFormat {
    /// The name of the format.
    pub name: String,
    /// The pattern.
    pub pattern: String,
    /// The names of the variables that the pattern uses, in order.
    pub variables: Vec<String>,
}

/// The mathematical value of a [`LogFormat`].
pub struct LogFormatView {
    pub name: Seq<char>,
    pub pattern: Seq<char>,
    pub variables: Seq<Seq<char>>,
}

impl View for LogFormat {
    type V = LogFormatView;

    open spec fn view(&self) -> LogFormatView {
        LogFormatView {
            name: self.name@,
            pattern: self.pattern@,
            variables: strings_view(self.variables@),
        }
    }
}

/// Holds of what cannot stand in the name of a variable written without
/// braces: anything but letters, numbers and `_`.
pub open spec fn not_name() -> spec_fn(char) -> bool {
    |c: char| !(is_alphanumeric(c) || c == '_')
}

/// `name` as the only element where it is not empty; nothing otherwise.
pub open spec fn named_once(name: Seq<char>) -> Seq<Seq<char>> {
    if name.len() > 0 {
        seq![name]
    } else {
        Seq::empty()
    }
}

/// The names of the variables used in `s` from `from` on, in order.
///
/// A variable is `$name`, where the name is the run of letters, numbers and
/// `_` after the `$`, or `${name}`, where it is what stands up to the next
/// `}` or, without one, up to the end. An empty name is no variable.
pub open spec fn variables_from(s: Seq<char>, from: int) -> Seq<Seq<char>>
    decreases s.len() - from,
{
    if from < 0 || from >= s.len() {
        Seq::empty()
    } else if s[from] != '$' {
        variables_from(s, from + 1)
    } else if from + 1 < s.len() && s[from + 1] == '{' {
        let end = first_where(s, from + 2, close_brace());
        proof {
            lemma_first_where(s, from + 2, close_brace());
        }
        named_once(s.subrange(from + 2, end)) + variables_from(
            s,
            if end < s.len() {
                end + 1
            } else {
                end
            },
        )
    } else {
        let end = first_where(s, from + 1, not_name());
        proof {
            lemma_first_where(s, from + 1, not_name());
        }
        named_once(s.subrange(from + 1, end)) + variables_from(s, end)
    }
}

/// The names of the variables used in a pattern, in order.
pub open spec fn variables_of(pattern: Seq<char>) -> Seq<Seq<char>> {
    variables_from(pattern, 0)
}

/// Whether a character goes on with the name of a variable written without
/// braces, given whether it is a letter or a number: it does where it is
/// one, and where it is `_`.
pub fn continues_name(alphanumeric: bool, c: char) -> (r: bool)
    ensures
        r == (alphanumeric || c == '_'),
{
    alphanumeric || c == '_'
}

/// The names of the variables that a pattern uses, in order.
pub fn extract_variables(pattern: &str) -> (r: Vec<String>)
    ensures
        strings_view(r@) == variables_of(pattern@),
{
    let v = chars_of(pattern);
    let n = v.len();
    let mut out: Vec<String> = Vec::new();
    let mut i: usize = 0;
    assert(strings_view(out@) =~= Seq::<Seq<char>>::empty());
    while i < n
        invariant
            i <= n,
            n == v.len(),
            v@ == pattern@,
            variables_of(pattern@) == strings_view(out@) + variables_from(v@, i as int),
        decreases n - i,
    {
        let ghost seen = strings_view(out@);
        if v[i] != '$' {
            i += 1;
            continue ;
        }
        let from: usize;
        let end: usize;
        let next: usize;
        if i + 1 < n && v[i + 1] == '{' {
            from = i + 2;
            let mut k: usize = from;
            while k < n && v[k] != '}'
                invariant
                    from <= k <= n,
                    n == v.len(),
                    forall|j: int| from <= j < k ==> !(close_brace())(#[trigger] v@[j]),
                decreases n - k,
            {
                k += 1;
            }
            proof {
                lemma_first_where_is(v@, from as int, close_brace(), k as int);
            }
            end = k;
            next = if k < n {
                k + 1
            } else {
                k
            };
        } else {
            from = i + 1;
            let mut k: usize = from;
            while k < n && continues_name(char_is_alphanumeric(v[k]), v[k])
                invariant
                    from <= k <= n,
                    n == v.len(),
                    forall|j: int| from <= j < k ==> !(not_name())(#[trigger] v@[j]),
                decreases n - k,
            {
                k += 1;
            }
            proof {
                lemma_first_where_is(v@, from as int, not_name(), k as int);
            }
            end = k;
            next = k;
        }
        if end > from {
            let name = string_of(&v, from, end);
            let ghost text = name@;
            out.push(name);
            proof {
                assert(strings_view(out@) =~= seen.push(text));
                assert(seen + (seq![text] + variables_from(v@, next as int)) =~= seen.push(text)
                    + variables_from(v@, next as int));
            }
        } else {
            proof {
                assert(v@.subrange(from as int, end as int) =~= Seq::<char>::empty());
                assert(seen + (Seq::<Seq<char>>::empty() + variables_from(v@, next as int))
                    =~= seen + variables_from(v@, next as int));
            }
        }
        i = next;
    }
    proof {
        assert(strings_view(out@) + Seq::<Seq<char>>::empty() =~= strings_view(out@));
    }
    out
}

impl LogFormat {
    /// The format with the given name and pattern; its variables are those
    /// that the pattern uses.
    pub fn new(name: &str, pattern: &str) -> (r: LogFormat)
        ensures
            r@ == (LogFormatView {
                name: name@,
                pattern: pattern@,
                variables: variables_of(pattern@),
            }),
    {
        let variables = extract_variables(pattern);
        LogFormat { name: name.to_owned(), pattern: pattern.to_owned(), variables }
    }

    /// The name of the format.
    pub fn name(&self) -> (r: &str)
        ensures
            r@ == self@.name,
    {
        self.name.as_str()
    }

    /// The pattern.
    pub fn pattern(&self) -> (r: &str)
        ensures
            r@ == self@.pattern,
    {
        self.pattern.as_str()
    }

    /// The names of the variables that the pattern uses, in order.
    pub fn variables(&self) -> (r: &[String])
        ensures
            strings_view(r@) == self@.variables,
    {
        self.variables.as_slice()
    }
}

impl Clone for LogFormat {
    fn clone(&self) -> (r: LogFormat)
        ensures
            r@ == self@,
    {
        let mut variables: Vec<String> = Vec::new();
        let mut i: usize = 0;
        while i < self.variables.len()
            invariant
                i <= self.variables.len(),
                variables@ == self.variables@.take(i as int),
            decreases self.variables.len() - i,
        {
            variables.push(self.variables[i].clone());
            assert(self.variables@.take(i + 1) =~= self.variables@.take(i as int).push(
                self.variables@[i as int],
            ));
            i += 1;
        }
        assert(self.variables@.take(i as int) =~= self.variables@);
        LogFormat { name: self.name.clone(), pattern: self.pattern.clone(), variables }
    }
}

} // verus!
