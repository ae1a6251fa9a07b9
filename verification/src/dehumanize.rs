//! A preprocessor for human-edited JSON: it blanks out `//` and
//! `/* */` comments (strings are skipped whole) and drops a stray comma
//! standing before `]` or `}`.  The output keeps all other bytes, so
//! positions shift only where commas move.

use vstd::prelude::*;

verus! {

/// The byte `"`.
pub const QUOTE: u8 = 34;

/// The byte `\`.
pub const BACKSLASH: u8 = 92;

/// The byte `/`.
pub const FSLASH: u8 = 47;

/// The byte `*`.
pub const STAR: u8 = 42;

/// The byte `,`.
pub const COMMA: u8 = 44;

/// The byte `]`.
pub const RBRACKET: u8 = 93;

/// The byte `}`.
pub const RBRACE: u8 = 125;

/// The byte for a space.
pub const SPACE: u8 = 32;

/// The byte for a tab.
pub const TAB: u8 = 9;

/// The byte for a line feed.
pub const LF: u8 = 10;

/// The byte for a carriage return.
pub const CR: u8 = 13;

/// Whether some quote stands at or after `j`.
pub open spec fn has_quote(s: Seq<u8>, j: int) -> bool {
    exists|q: int| j <= q < s.len() && s[q] == QUOTE
}

/// Where a string token beginning just before `j` ends: the position
/// after its closing quote.  An escape prefers to consume two bytes,
/// but falls back to one when no close can be reached otherwise.
pub open spec fn string_match(s: Seq<u8>, j: int) -> Option<int>
    decreases s.len() - j,
{
    if j < 0 || j >= s.len() {
        None
    } else if s[j] == QUOTE {
        Some(j + 1)
    } else if s[j] == BACKSLASH && j + 1 < s.len() {
        match string_match(s, j + 2) {
            Some(e) => Some(e),
            None => string_match(s, j + 1),
        }
    } else {
        string_match(s, j + 1)
    }
}

/// The end of a line comment starting at `i`: the first line break at
/// or after `i`, or the end of the input.
pub open spec fn line_end(s: Seq<u8>, i: int) -> int
    decreases s.len() - i,
{
    if i < 0 || i >= s.len() {
        s.len() as int
    } else if s[i] == CR || s[i] == LF {
        i
    } else {
        line_end(s, i + 1)
    }
}

/// The end of a block comment whose body starts at `j`: the position
/// after the first `*/` at or after `j`, if any.
pub open spec fn block_end(s: Seq<u8>, j: int) -> Option<int>
    decreases s.len() - j,
{
    if j < 0 || j + 1 >= s.len() {
        None
    } else if s[j] == STAR && s[j + 1] == FSLASH {
        Some(j + 2)
    } else {
        block_end(s, j + 1)
    }
}

/// What the preprocessor emits for the input from position `i` on,
/// given whether a comma is pending.  A pending comma is written before
/// the next plain token unless that token is `]` or `}`.
pub open spec fn spec_dehumanize_from(s: Seq<u8>, i: int, prev_comma: bool) -> Seq<u8>
    decreases s.len() - i,
{
    if i < 0 || i >= s.len() {
        if prev_comma {
            seq![COMMA]
        } else {
            Seq::empty()
        }
    } else {
        let c = s[i];
        if c == QUOTE && string_match(s, i + 1) is Some {
            let e = string_match(s, i + 1)->0;
            if e <= i || e > s.len() {
                Seq::empty()
            } else {
                pending(prev_comma) + s.subrange(i, e) + spec_dehumanize_from(s, e, false)
            }
        } else if c == FSLASH && i + 1 < s.len() && s[i + 1] == FSLASH {
            let e = line_end(s, i);
            if e <= i || e > s.len() {
                Seq::empty()
            } else {
                seq![SPACE] + spec_dehumanize_from(s, e, prev_comma)
            }
        } else if c == FSLASH && i + 1 < s.len() && s[i + 1] == STAR && block_end(s, i + 2) is Some {
            let e = block_end(s, i + 2)->0;
            if e <= i || e > s.len() {
                Seq::empty()
            } else {
                seq![SPACE] + spec_dehumanize_from(s, e, prev_comma)
            }
        } else if c == SPACE || c == TAB || c == LF || c == CR {
            seq![c] + spec_dehumanize_from(s, i + 1, prev_comma)
        } else if c == COMMA {
            pending(prev_comma) + spec_dehumanize_from(s, i + 1, true)
        } else if c == RBRACKET || c == RBRACE {
            seq![c] + spec_dehumanize_from(s, i + 1, false)
        } else {
            pending(prev_comma) + seq![c] + spec_dehumanize_from(s, i + 1, false)
        }
    }
}

/// The comma owed from a previous token, if any.
pub open spec fn pending(prev_comma: bool) -> Seq<u8> {
    if prev_comma {
        seq![COMMA]
    } else {
        Seq::empty()
    }
}

/// What preprocessing a whole input yields.
pub open spec fn spec_dehumanize(s: Seq<u8>) -> Seq<u8> {
    spec_dehumanize_from(s, 0, false)
}

/// A string token can close exactly when a quote remains ahead.
proof fn lemma_string_match_some(s: Seq<u8>, j: int)
    requires
        0 <= j <= s.len(),
    ensures
        string_match(s, j) is Some <==> has_quote(s, j),
        string_match(s, j) is Some ==> j < string_match(s, j)->0 <= s.len(),
    decreases s.len() - j,
{
    if j < s.len() {
        if s[j] == QUOTE {
            assert(has_quote(s, j));
        } else if s[j] == BACKSLASH && j + 1 < s.len() {
            lemma_string_match_some(s, j + 2);
            lemma_string_match_some(s, j + 1);
            if has_quote(s, j) {
                let q = choose|q: int| j <= q < s.len() && s[q] == QUOTE;
                assert(j + 1 <= q < s.len() && s[q] == QUOTE);
                assert(has_quote(s, j + 1));
            }
        } else {
            lemma_string_match_some(s, j + 1);
            if has_quote(s, j) {
                let q = choose|q: int| j <= q < s.len() && s[q] == QUOTE;
                assert(j + 1 <= q < s.len() && s[q] == QUOTE);
                assert(has_quote(s, j + 1));
            }
        }
    }
}

/// Whether a quote stands at or after `j`, decided by a scan.
fn has_quote_exec(s: &[u8], j: usize) -> (r: bool)
    requires
        j <= s@.len(),
    ensures
        r == has_quote(s@, j as int),
    decreases s@.len() - j,
{
    if j >= s.len() {
        false
    } else if s[j] == QUOTE {
        true
    } else {
        let r = has_quote_exec(s, j + 1);
        proof {
            if has_quote(s@, j as int) {
                let q = choose|q: int| j <= q < s@.len() && s@[q] == QUOTE;
                assert(j + 1 <= q);
            }
        }
        r
    }
}

/// Finds where the string token that opened just before `j` ends.
fn string_end_exec(s: &[u8], j: usize) -> (r: Option<usize>)
    requires
        j <= s@.len(),
    ensures
        match r {
            Some(e) => string_match(s@, j as int) == Some(e as int) && j < e <= s@.len(),
            None => string_match(s@, j as int) is None,
        },
    decreases s@.len() - j,
{
    proof {
        lemma_string_match_some(s@, j as int);
    }
    if j >= s.len() {
        None
    } else if s[j] == QUOTE {
        Some(j + 1)
    } else if s[j] == BACKSLASH && j + 1 < s.len() {
        if has_quote_exec(s, j + 2) {
            proof {
                lemma_string_match_some(s@, j as int + 2);
            }
            string_end_exec(s, j + 2)
        } else {
            proof {
                lemma_string_match_some(s@, j as int + 2);
            }
            string_end_exec(s, j + 1)
        }
    } else {
        string_end_exec(s, j + 1)
    }
}

/// Finds the first line break at or after `i`, or the input's end.
fn line_end_exec(s: &[u8], i: usize) -> (r: usize)
    requires
        i <= s@.len(),
    ensures
        r as int == line_end(s@, i as int),
        i <= r <= s@.len(),
        i < s@.len() && s@[i as int] != CR && s@[i as int] != LF ==> r > i,
    decreases s@.len() - i,
{
    if i >= s.len() {
        s.len()
    } else if s[i] == CR || s[i] == LF {
        i
    } else {
        let r = line_end_exec(s, i + 1);
        r
    }
}

/// Finds the position after the first `*/` at or after `j`, if any.
fn block_end_exec(s: &[u8], j: usize) -> (r: Option<usize>)
    requires
        j <= s@.len(),
    ensures
        match r {
            Some(e) => block_end(s@, j as int) == Some(e as int) && j < e <= s@.len(),
            None => block_end(s@, j as int) is None,
        },
    decreases s@.len() - j,
{
    if s.len() - j < 2 {
        None
    } else if s[j] == STAR && s[j + 1] == FSLASH {
        Some(j + 2)
    } else {
        block_end_exec(s, j + 1)
    }
}

/// Preprocesses human-edited JSON: comments become a single space,
/// strings pass through untouched, and a comma directly before `]` or
/// `}` (comments and whitespace between them ignored) is dropped.
pub fn dehumanize_json(s: &[u8]) -> (r: Vec<u8>)
    ensures
        r@ == spec_dehumanize(s@),
{
    let mut out: Vec<u8> = Vec::new();
    let mut i: usize = 0;
    let mut prev_comma: bool = false;
    while i < s.len()
        invariant
            i <= s@.len(),
            spec_dehumanize(s@) == out@ + spec_dehumanize_from(s@, i as int, prev_comma),
        decreases s@.len() - i,
    {
        let c = s[i];
        if c == QUOTE {
            match string_end_exec(s, i + 1) {
                Some(e) => {
                    if prev_comma {
                        out.push(COMMA);
                    }
                    let tok = vstd::slice::slice_subrange(s, i, e);
                    crate::strutil::push_bytes(&mut out, tok);
                    i = e;
                    prev_comma = false;
                }
                None => {
                    if prev_comma {
                        out.push(COMMA);
                    }
                    out.push(c);
                    i = i + 1;
                    prev_comma = false;
                }
            }
        } else if c == FSLASH && i + 1 < s.len() && s[i + 1] == FSLASH {
            out.push(SPACE);
            i = line_end_exec(s, i);
        } else if c == FSLASH && i + 1 < s.len() && s[i + 1] == STAR {
            match block_end_exec(s, i + 2) {
                Some(e) => {
                    out.push(SPACE);
                    i = e;
                }
                None => {
                    if prev_comma {
                        out.push(COMMA);
                    }
                    out.push(c);
                    i = i + 1;
                    prev_comma = false;
                }
            }
        } else if c == SPACE || c == TAB || c == LF || c == CR {
            out.push(c);
            i = i + 1;
        } else if c == COMMA {
            if prev_comma {
                out.push(COMMA);
            }
            i = i + 1;
            prev_comma = true;
        } else if c == RBRACKET || c == RBRACE {
            out.push(c);
            i = i + 1;
            prev_comma = false;
        } else {
            if prev_comma {
                out.push(COMMA);
            }
            out.push(c);
            i = i + 1;
            prev_comma = false;
        }
    }
    if prev_comma {
        out.push(COMMA);
    }
    out
}

} // verus!
