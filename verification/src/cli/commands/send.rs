//! Building the command line sent to the device's text shell.

use vstd::prelude::*;
use vstd::string::*;

use crate::text::{
    chars_of, is_whitespace, is_whitespace_spec, join, join_spec, push_char, strings_view,
};

verus! {

/// `s` with each double quote escaped by a backslash.
pub open spec fn escape_quotes(s: Seq<char>) -> Seq<char>
    decreases s.len(),
{
    if s.len() == 0 {
        s
    } else {
        escape_quotes(s.drop_last()) + (if s.last() == '"' {
            seq!['\\', '"']
        } else {
            seq![s.last()]
        })
    }
}

/// Some character of `s` is whitespace.
pub open spec fn has_whitespace(s: Seq<char>) -> bool {
    exists|i: int| 0 <= i < s.len() && is_whitespace_spec(#[trigger] s[i])
}

/// An argument as the shell receives it: wrapped in double quotes, with its
/// own double quotes escaped, when it contains whitespace; unchanged otherwise.
pub open spec fn quote_arg(s: Seq<char>) -> Seq<char> {
    if has_whitespace(s) {
        seq!['"'] + escape_quotes(s) + seq!['"']
    } else {
        s
    }
}

/// Each argument quoted for the shell.
pub open spec fn quoted_all(args: Seq<Seq<char>>) -> Seq<Seq<char>> {
    args.map_values(|a: Seq<char>| quote_arg(a))
}

fn quote_one(arg: &String) -> (r: String)
    ensures
        r@ == quote_arg(arg@),
{
    let cs = chars_of(arg.as_str());
    let mut found = false;
    let mut i: usize = 0;
    while i < cs.len()
        invariant
            i <= cs@.len(),
            found <==> exists|k: int| 0 <= k < i && is_whitespace_spec(#[trigger] cs@[k]),
        decreases cs@.len() - i,
    {
        if is_whitespace(cs[i]) {
            found = true;
        }
        i = i + 1;
    }
    if !found {
        proof {
            assert(!has_whitespace(arg@));
        }
        return arg.clone();
    }
    proof {
        assert(has_whitespace(arg@));
    }
    let mut r = String::new();
    push_char(&mut r, '"');
    let mut j: usize = 0;
    while j < cs.len()
        invariant
            j <= cs@.len(),
            cs@ == arg@,
            r@ == seq!['"'] + escape_quotes(cs@.take(j as int)),
        decreases cs@.len() - j,
    {
        let c = cs[j];
        if c == '"' {
            push_char(&mut r, '\\');
            push_char(&mut r, '"');
        } else {
            push_char(&mut r, c);
        }
        j = j + 1;
        proof {
            let t = cs@.take(j as int);
            assert(t.drop_last() =~= cs@.take(j - 1));
            assert(t.last() == c);
            if c == '"' {
                assert(seq!['"'] + escape_quotes(cs@.take(j - 1)) + seq!['\\', '"'] =~= (seq![
                    '"',
                ] + escape_quotes(cs@.take(j - 1))).push('\\').push('"'));
            } else {
                assert(seq!['"'] + escape_quotes(cs@.take(j - 1)) + seq![c] =~= (seq!['"']
                    + escape_quotes(cs@.take(j - 1))).push(c));
            }
        }
    }
    push_char(&mut r, '"');
    proof {
        assert(cs@.take(cs@.len() as int) =~= cs@);
        assert(r@ =~= seq!['"'] + escape_quotes(arg@) + seq!['"']);
    }
    r
}

/// Quotes arguments for the device shell: arguments containing whitespace
/// are wrapped in double quotes with their own double quotes escaped, and
/// all are joined with single spaces.
pub fn quote_args_for_shell(args: &[String]) -> (r: String)
    ensures
        r@ == join_spec(quoted_all(strings_view(args@)), " "@),
{
    let mut quoted: Vec<String> = Vec::new();
    let mut i: usize = 0;
    while i < args.len()
        invariant
            i <= args@.len(),
            strings_view(quoted@) == quoted_all(strings_view(args@.take(i as int))),
        decreases args@.len() - i,
    {
        let ghost before = quoted@;
        quoted.push(quote_one(&args[i]));
        i = i + 1;
        proof {
            assert(strings_view(quoted@) =~= strings_view(before).push(quote_arg(args@[i - 1]@)));
            assert(quoted_all(strings_view(args@.take(i as int))) =~= quoted_all(
                strings_view(args@.take(i - 1)),
            ).push(quote_arg(args@[i - 1]@)));
        }
    }
    proof {
        assert(args@.take(args@.len() as int) =~= args@);
    }
    join(quoted.as_slice(), " ")
}

} // verus!
