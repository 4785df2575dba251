//! The card document codec: a card renders to a plain-text document — name
//! line, blank-line separator, description verbatim — and the edited document
//! parses back into name and description. Only the first blank line ends the
//! name section; identity fields never appear in the text.
use vstd::prelude::*;
use vstd::string::{StrSliceExecFns, StringExecFns};

use crate::domain::Card;
use crate::text::{is_ws, trim_end_chars, trimmed_end};

verus! {

/// Parsing failure: the document carries no name line.
#[derive(Debug, PartialEq)]
pub enum ParseError {
    MalformedDocument,
}

/// A blank-line separator (two consecutive newlines) starts at index `i`.
pub open spec fn sep_at(s: Seq<char>, i: int) -> bool {
    &&& 0 <= i
    &&& i + 2 <= s.len()
    &&& s[i] == '\n'
    &&& s[i + 1] == '\n'
}

/// Index of the first separator at or after `i`, or -1 if there is none.
pub open spec fn first_sep_from(s: Seq<char>, i: int) -> int
    decreases s.len() - i + 2,
{
    if i + 2 > s.len() {
        -1
    } else if s[i] == '\n' && s[i + 1] == '\n' {
        i
    } else {
        first_sep_from(s, i + 1)
    }
}

/// Index of the first separator of the document, or -1 if there is none.
pub open spec fn first_sep(s: Seq<char>) -> int {
    first_sep_from(s, 0)
}

/// The name a document parses to: everything before the first separator
/// (the whole document when there is none), trailing whitespace removed.
pub open spec fn parsed_name(s: Seq<char>) -> Seq<char> {
    if first_sep(s) >= 0 {
        trimmed_end(s.take(first_sep(s)))
    } else {
        trimmed_end(s)
    }
}

/// The description a document parses to: everything after the first
/// separator, verbatim; empty when there is no separator.
pub open spec fn parsed_desc(s: Seq<char>) -> Seq<char> {
    if first_sep(s) >= 0 {
        s.skip(first_sep(s) + 2)
    } else {
        Seq::empty()
    }
}

/// The canonical document of a card: name, blank-line separator, description.
pub open spec fn render_spec(name: Seq<char>, desc: Seq<char>) -> Seq<char> {
    name + seq!['\n', '\n'] + desc
}

proof fn lemma_first_sep_from_found(s: Seq<char>, i: int, k: int)
    requires
        0 <= i <= k,
        sep_at(s, k),
        forall|j: int| i <= j < k ==> !sep_at(s, j),
    ensures
        first_sep_from(s, i) == k,
    decreases k - i,
{
    if i == k {
    } else {
        assert(!sep_at(s, i));
        lemma_first_sep_from_found(s, i + 1, k);
    }
}

proof fn lemma_first_sep_from_none(s: Seq<char>, i: int)
    requires
        0 <= i,
        forall|j: int| i <= j ==> !sep_at(s, j),
    ensures
        first_sep_from(s, i) == -1,
    decreases s.len() - i + 2,
{
    if i + 2 > s.len() {
    } else {
        assert(!sep_at(s, i));
        lemma_first_sep_from_none(s, i + 1);
    }
}

/// A document with no blank-line separator anywhere parses to an empty
/// description and a name equal to the whole document with trailing
/// whitespace trimmed.
pub proof fn lemma_no_sep_parse(s: Seq<char>)
    requires
        forall|i: int| !sep_at(s, i),
    ensures
        first_sep(s) == -1,
        parsed_name(s) == trimmed_end(s),
        parsed_desc(s) == Seq::<char>::empty(),
{
    lemma_first_sep_from_none(s, 0);
}

impl Card {
    /// Renders this card to its canonical editable document.
    pub fn render(&self) -> (r: String)
        ensures
            r@ == render_spec(self.name@, self.desc@),
    {
        let mut out = self.name.clone();
        out.append("\n\n");
        out.append(self.desc.as_str());
        proof {
            reveal_strlit("\n\n");
            assert(out@ =~= render_spec(self.name@, self.desc@));
        }
        out
    }

    /// Parses an edited document back into a card holding only name and
    /// description: the first blank line ends the name section; with no
    /// blank line the whole (trailing-whitespace-trimmed) document is the
    /// name and the description is empty. A document with no name left is
    /// malformed. Identity fields come back empty; callers splice them from
    /// the original card.
    pub fn parse(text: &str) -> (r: Result<Card, ParseError>)
        ensures
            r is Ok <==> parsed_name(text@).len() > 0,
            r matches Err(e) ==> e is MalformedDocument,
            r matches Ok(c) ==> ({
                &&& c.name@ == parsed_name(text@)
                &&& c.desc@ == parsed_desc(text@)
                &&& c.id@ == Seq::<char>::empty()
                &&& c.closed == false
                &&& c.labels@.len() == 0
            }),
    {
        let n = text.unicode_len();
        let mut i: usize = 0;
        let mut found = false;
        while !found && n > 0 && i < n - 1
            invariant
                n == text@.len(),
                i <= n,
                found ==> sep_at(text@, i as int),
                forall|j: int| 0 <= j < i ==> !sep_at(text@, j),
            decreases (if found {
                0int
            } else {
                n - i + 1
            }),
        {
            if text.get_char(i) == '\n' && text.get_char(i + 1) == '\n' {
                found = true;
            } else {
                i = i + 1;
            }
        }
        proof {
            if found {
                lemma_first_sep_from_found(text@, 0, i as int);
            } else {
                assert forall|j: int| 0 <= j implies !sep_at(text@, j) by {
                    if j < i {
                    } else {
                        assert(j + 2 > n);
                    }
                }
                lemma_first_sep_from_none(text@, 0);
            }
        }
        let k: usize = if found {
            i
        } else {
            n
        };
        let name_trimmed = trim_end_chars(text.substring_char(0, k));
        proof {
            if !found {
                assert(text@.take(n as int) =~= text@);
            }
        }
        if name_trimmed.is_empty() {
            return Err(ParseError::MalformedDocument);
        }
        let name = name_trimmed.to_owned();
        let desc = if found {
            text.substring_char(i + 2, n).to_owned()
        } else {
            String::new()
        };
        proof {
            if found {
                assert(text@.subrange(i as int + 2, n as int) =~= text@.skip(i as int + 2));
            }
        }
        Ok(Card { id: String::new(), name, desc, closed: false, labels: Vec::new() })
    }
}

/// The round-trip law of the codec: rendering a card and parsing the result
/// gives back the same name and description, for any name that holds no
/// blank-line separator and does not end in whitespace. The description may
/// be anything, even text that looks like a second name line: only the first
/// blank line ends the name section.
pub proof fn lemma_render_parse_round_trip(name: Seq<char>, desc: Seq<char>)
    requires
        name.len() > 0,
        !is_ws(name.last()),
        forall|i: int| !sep_at(name, i),
    ensures
        parsed_name(render_spec(name, desc)) == name,
        parsed_desc(render_spec(name, desc)) == desc,
{
    let s = render_spec(name, desc);
    let k = name.len() as int;
    assert(s[k] == '\n');
    assert(s[k + 1] == '\n');
    assert(sep_at(s, k));
    assert forall|j: int| 0 <= j < k implies !sep_at(s, j) by {
        if j < k - 1 {
            assert(s[j] == name[j]);
            assert(s[j + 1] == name[j + 1]);
            assert(!sep_at(name, j));
        } else {
            assert(s[k - 1] == name[k - 1]);
            assert(!is_ws(name[k - 1]));
        }
    }
    lemma_first_sep_from_found(s, 0, k);
    assert(s.take(k) =~= name);
    assert(trimmed_end(name) == name);
    assert(s.skip(k + 2) =~= desc);
}

} // verus!
