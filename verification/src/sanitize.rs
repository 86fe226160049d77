//! Sanitization of raw completion text into a user-presentable reply.
//!
//! The completion service hands back text that carries JSON-rendering
//! artifacts: surrounding quotes, stray escape sequences, and a leading `n`
//! left over from an escaped newline. Sanitization strips an enumerated set
//! of leading characters, strips one trailing quote, and turns each literal
//! two-character `\n` sequence into a real newline.

use vstd::prelude::*;

verus! {

/// Characters stripped from the front of raw completion text.
///
/// The set deliberately contains the letter `n`: it catches the stray `n`
/// of an escaped `\n` whose backslash was already consumed, even though it
/// also strips a genuine leading `n` from a real word.
pub open spec fn rejected(c: char) -> bool {
    ||| c == '!'
    ||| c == '@'
    ||| c == '#'
    ||| c == '$'
    ||| c == '%'
    ||| c == '^'
    ||| c == '&'
    ||| c == '*'
    ||| c == '('
    ||| c == ')'
    ||| c == '{'
    ||| c == '}'
    ||| c == '['
    ||| c == ']'
    ||| c == '|'
    ||| c == '\\'
    ||| c == '\''
    ||| c == '"'
    ||| c == ':'
    ||| c == ';'
    ||| c == ','
    ||| c == '<'
    ||| c == '.'
    ||| c == '>'
    ||| c == '/'
    ||| c == '?'
    ||| c == 'n'
}

/// Whether `c` belongs to the leading rejection set.
pub fn is_rejected(c: char) -> (r: bool)
    ensures
        r == rejected(c),
{
    c == '!' || c == '@' || c == '#' || c == '$' || c == '%' || c == '^' || c == '&' || c == '*'
        || c == '(' || c == ')' || c == '{' || c == '}' || c == '[' || c == ']' || c == '|'
        || c == '\\' || c == '\'' || c == '"' || c == ':' || c == ';' || c == ',' || c == '<'
        || c == '.' || c == '>' || c == '/' || c == '?' || c == 'n'
}

/// The longest suffix of `s` that does not start with a rejected character.
pub open spec fn strip_leading(s: Seq<char>) -> Seq<char>
    decreases s.len(),
{
    if s.len() > 0 && rejected(s[0]) {
        strip_leading(s.drop_first())
    } else {
        s
    }
}

/// `s` with one trailing quote removed, if it ends in one.
pub open spec fn strip_one_trailing_quote(s: Seq<char>) -> Seq<char> {
    if s.len() > 0 && s.last() == '"' {
        s.drop_last()
    } else {
        s
    }
}

/// `s` with every literal two-character `\n` sequence replaced by a real
/// newline, scanning left to right without overlap.
pub open spec fn unescape_newlines(s: Seq<char>) -> Seq<char>
    decreases s.len(),
{
    if s.len() >= 2 && s[0] == '\\' && s[1] == 'n' {
        seq!['\n'] + unescape_newlines(s.skip(2))
    } else if s.len() >= 1 {
        seq![s[0]] + unescape_newlines(s.drop_first())
    } else {
        Seq::empty()
    }
}

/// The sanitized form of raw completion text: leading rejected characters
/// stripped, then one trailing quote stripped, then escaped newlines
/// unescaped.
pub open spec fn sanitized(s: Seq<char>) -> Seq<char> {
    unescape_newlines(strip_one_trailing_quote(strip_leading(s)))
}

/// Sanitizes raw completion text into the reply body.
pub fn sanitize(raw: &str) -> (reply: String)
    ensures
        reply@ == sanitized(raw@),
{
    let n: usize = raw.unicode_len();

    let mut start: usize = 0;
    proof {
        assert(raw@.skip(0) =~= raw@);
    }
    while start < n && is_rejected(raw.get_char(start))
        invariant
            start <= n,
            n == raw@.len(),
            strip_leading(raw@) == strip_leading(raw@.skip(start as int)),
        decreases n - start,
    {
        proof {
            assert(raw@.skip(start as int).drop_first() =~= raw@.skip(start as int + 1));
        }
        start = start + 1;
    }
    proof {
        assert(strip_leading(raw@.skip(start as int)) == raw@.skip(start as int));
    }

    let mut end: usize = n;
    if end > start && raw.get_char(end - 1) == '"' {
        end = end - 1;
        proof {
            assert(raw@.skip(start as int).drop_last() =~= raw@.subrange(
                start as int,
                end as int,
            ));
        }
    } else {
        proof {
            assert(raw@.skip(start as int) =~= raw@.subrange(start as int, n as int));
        }
    }
    proof {
        assert(strip_one_trailing_quote(strip_leading(raw@)) == raw@.subrange(
            start as int,
            end as int,
        ));
    }

    let ghost kept: Seq<char> = raw@.subrange(start as int, end as int);
    let mut reply = String::new();
    let mut i: usize = start;
    while i < end
        invariant
            start <= i <= end <= n,
            n == raw@.len(),
            kept == raw@.subrange(start as int, end as int),
            reply@ + unescape_newlines(raw@.subrange(i as int, end as int)) == unescape_newlines(
                kept,
            ),
        decreases end - i,
    {
        let ghost rest: Seq<char> = raw@.subrange(i as int, end as int);
        let ghost prev: Seq<char> = reply@;
        let c = raw.get_char(i);
        if i + 1 < end && c == '\\' && raw.get_char(i + 1) == 'n' {
            crate::strutil::push_char(&mut reply, '\n');
            proof {
                assert(rest.skip(2) =~= raw@.subrange(i as int + 2, end as int));
                assert(rest[0] == '\\' && rest[1] == 'n');
                assert(unescape_newlines(rest) == seq!['\n'] + unescape_newlines(rest.skip(2)));
                assert(reply@ + unescape_newlines(rest.skip(2)) =~= prev + unescape_newlines(
                    rest,
                ));
            }
            i = i + 2;
        } else {
            crate::strutil::push_char(&mut reply, c);
            proof {
                assert(rest.drop_first() =~= raw@.subrange(i as int + 1, end as int));
                assert(rest[0] == c);
                assert(unescape_newlines(rest) == seq![c] + unescape_newlines(rest.drop_first()));
                assert(reply@ + unescape_newlines(rest.drop_first()) =~= prev + unescape_newlines(
                    rest,
                ));
            }
            i = i + 1;
        }
    }
    proof {
        assert(raw@.subrange(end as int, end as int) =~= Seq::<char>::empty());
        assert(reply@ + Seq::<char>::empty() =~= reply@);
    }
    reply
}

/// Text with no two-character `\n` sequence is left alone by unescaping.
pub proof fn lemma_unescape_no_escape(s: Seq<char>)
    requires
        forall|i: int| 0 <= i < s.len() - 1 ==> !((#[trigger] s[i]) == '\\' && s[i + 1] == 'n'),
    ensures
        unescape_newlines(s) == s,
    decreases s.len(),
{
    if s.len() == 0 {
        assert(unescape_newlines(s) =~= s);
    } else {
        assert(forall|i: int|
            0 <= i < s.drop_first().len() - 1 ==> !((#[trigger] s.drop_first()[i]) == '\\'
                && s.drop_first()[i + 1] == 'n'));
        lemma_unescape_no_escape(s.drop_first());
        assert(seq![s[0]] + s.drop_first() =~= s);
    }
}

/// Sanitization leaves already-clean text alone: text that does not start
/// with a rejected character, does not end in a quote, and contains no
/// two-character `\n` sequence is its own sanitized form.
pub proof fn lemma_sanitize_clean_identity(s: Seq<char>)
    requires
        s.len() > 0 ==> !rejected(s[0]),
        s.len() > 0 ==> s.last() != '"',
        forall|i: int| 0 <= i < s.len() - 1 ==> !((#[trigger] s[i]) == '\\' && s[i + 1] == 'n'),
    ensures
        sanitized(s) == s,
{
    assert(strip_leading(s) == s);
    assert(strip_one_trailing_quote(s) == s);
    lemma_unescape_no_escape(s);
}

/// Every leading character from the rejection set is stripped: a prefix made
/// of rejected characters does not change what text sanitizes to.
pub proof fn lemma_rejected_prefix_stripped(prefix: Seq<char>, s: Seq<char>)
    requires
        forall|i: int| 0 <= i < prefix.len() ==> rejected(prefix[i]),
    ensures
        sanitized(prefix + s) == sanitized(s),
        strip_leading(prefix + s) == strip_leading(s),
    decreases prefix.len(),
{
    if prefix.len() == 0 {
        assert(prefix + s =~= s);
    } else {
        assert((prefix + s)[0] == prefix[0]);
        assert((prefix + s).drop_first() =~= prefix.drop_first() + s);
        lemma_rejected_prefix_stripped(prefix.drop_first(), s);
    }
}

/// Exactly one trailing quote is stripped: text ending in a quote loses that
/// quote and nothing else, so a doubled trailing quote keeps its first one.
pub proof fn lemma_trailing_quote_stripped_once(s: Seq<char>)
    ensures
        strip_one_trailing_quote(s.push('"')) == s,
{
    assert(s.push('"').last() == '"');
    assert(s.push('"').drop_last() =~= s);
}

/// A single two-character `\n` sequence after backslash-free text becomes one
/// real newline, and unescaping goes on behind it.
pub proof fn lemma_unescape_single_escape(a: Seq<char>, b: Seq<char>)
    requires
        forall|i: int| 0 <= i < a.len() ==> a[i] != '\\',
    ensures
        unescape_newlines(a + seq!['\\', 'n'] + b) == a + seq!['\n'] + unescape_newlines(b),
    decreases a.len(),
{
    let s = a + seq!['\\', 'n'] + b;
    if a.len() == 0 {
        assert(s =~= seq!['\\', 'n'] + b);
        assert(s[0] == '\\' && s[1] == 'n');
        assert(s.skip(2) =~= b);
        assert(seq!['\n'] + unescape_newlines(b) =~= a + seq!['\n'] + unescape_newlines(b));
    } else {
        assert(s[0] == a[0]);
        assert(a[0] != '\\');
        assert(s.drop_first() =~= a.drop_first() + seq!['\\', 'n'] + b);
        lemma_unescape_single_escape(a.drop_first(), b);
        assert(seq![s[0]] + (a.drop_first() + seq!['\n'] + unescape_newlines(b)) =~= a
            + seq!['\n'] + unescape_newlines(b));
    }
}

} // verus!
