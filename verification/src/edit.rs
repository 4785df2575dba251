//! The decision core of an edit session: reconstruct a full card from the
//! text an editor handed back, splice the identity fields from the original,
//! and detect whether anything changed — plus the placeholder rules of the
//! new-card flow. Writing the temporary file and running the editor stay
//! outside the crate.
use vstd::prelude::*;

use crate::codec::{parsed_desc, parsed_name, render_spec, sep_at, ParseError};
use crate::domain::{clone_labels, Card, CardView, Label};
use crate::text::{is_ws, str_eq, trim_end_chars, trimmed_end};

verus! {

/// The description pre-filled into a brand-new card's document.
pub open spec fn desc_placeholder() -> Seq<char> {
    "<Enter Description Here>"@
}

/// The name pre-filled into a brand-new card's document.
pub open spec fn name_placeholder() -> Seq<char> {
    "<Enter Card Name Here>"@
}

fn desc_placeholder_str() -> (r: &'static str)
    ensures
        r@ == desc_placeholder(),
{
    "<Enter Description Here>"
}

fn name_placeholder_str() -> (r: &'static str)
    ensures
        r@ == name_placeholder(),
{
    "<Enter Card Name Here>"
}

fn labels_equal(a: &Vec<Label>, b: &Vec<Label>) -> (r: bool)
    ensures
        r == (a@.map_values(|l: Label| l@) == b@.map_values(|l: Label| l@)),
{
    let ghost ma = a@.map_values(|l: Label| l@);
    let ghost mb = b@.map_values(|l: Label| l@);
    if a.len() != b.len() {
        proof {
            assert(ma.len() != mb.len());
        }
        return false;
    }
    let mut i: usize = 0;
    while i < a.len()
        invariant
            a@.len() == b@.len(),
            i <= a@.len(),
            ma == a@.map_values(|l: Label| l@),
            mb == b@.map_values(|l: Label| l@),
            forall|k: int| 0 <= k < i ==> ma[k] == mb[k],
        decreases a@.len() - i,
    {
        let same = str_eq(a[i].name.as_str(), b[i].name.as_str()) && str_eq(
            a[i].color.as_str(),
            b[i].color.as_str(),
        );
        if !same {
            proof {
                assert(ma[i as int] == a@[i as int]@);
                assert(mb[i as int] == b@[i as int]@);
                assert(ma[i as int] != mb[i as int]);
            }
            return false;
        }
        proof {
            assert(ma[i as int] == a@[i as int]@);
            assert(mb[i as int] == b@[i as int]@);
        }
        i = i + 1;
    }
    proof {
        assert(ma =~= mb);
    }
    true
}

/// Field-by-field equality of two cards, over every field relevant to
/// equality: id, name, description, closed flag and labels.
pub fn cards_equal(a: &Card, b: &Card) -> (r: bool)
    ensures
        r == (a@ == b@),
{
    let same = str_eq(a.id.as_str(), b.id.as_str()) && str_eq(a.name.as_str(), b.name.as_str())
        && str_eq(a.desc.as_str(), b.desc.as_str()) && a.closed == b.closed && labels_equal(
        &a.labels,
        &b.labels,
    );
    proof {
        if same {
            assert(a@ == b@);
        } else {
            assert(a@ != b@);
        }
    }
    same
}

/// Reconstructs a card from the text an editor handed back: trims the
/// trailing whitespace editors append, parses name and description out of the
/// document, splices `id` and `labels` from the original card, and reports
/// whether the result differs from the original in any field. A document with
/// no name left is malformed and aborts the edit.
pub fn apply_edit(original: &Card, edited: &str) -> (r: Result<(Card, bool), ParseError>)
    ensures
        r is Ok <==> parsed_name(trimmed_end(edited@)).len() > 0,
        r matches Ok(p) ==> ({
            let doc = trimmed_end(edited@);
            &&& p.0@.name == parsed_name(doc)
            &&& p.0@.desc == parsed_desc(doc)
            &&& p.0@.id == original@.id
            &&& p.0@.labels == original@.labels
            &&& p.0@.closed == false
            &&& p.1 == (p.0@ != original@)
        }),
{
    let doc = trim_end_chars(edited);
    let parsed = match Card::parse(doc) {
        Ok(c) => c,
        Err(e) => {
            return Err(e);
        },
    };
    let Card { name, desc, .. } = parsed;
    let card = Card {
        id: original.id.clone(),
        name,
        desc,
        closed: false,
        labels: clone_labels(&original.labels),
    };
    let changed = !cards_equal(&card, original);
    Ok((card, changed))
}

/// The pre-filled card a brand-new card edit session starts from.
pub fn new_card_template() -> (r: Card)
    ensures
        r.name@ == name_placeholder(),
        r.desc@ == desc_placeholder(),
        r.id@ == Seq::<char>::empty(),
        r.closed == false,
        r.labels@.len() == 0,
{
    Card {
        id: String::new(),
        name: name_placeholder_str().to_owned(),
        desc: desc_placeholder_str().to_owned(),
        closed: false,
        labels: Vec::new(),
    }
}

/// Decides the outcome of a new-card session from the reconstructed card: an
/// untouched placeholder description is normalized to empty, and an untouched
/// placeholder name means no card is created at all.
pub fn finalize_new_card(card: Card) -> (r: Option<Card>)
    ensures
        card.name@ == name_placeholder() <==> r is None,
        r matches Some(c) ==> ({
            &&& c.name@ == card.name@
            &&& c.id@ == card.id@
            &&& c.closed == card.closed
            &&& c@.labels == card@.labels
            &&& c.desc@ == (if card.desc@ == desc_placeholder() {
                Seq::<char>::empty()
            } else {
                card.desc@
            })
        }),
{
    if str_eq(card.name.as_str(), name_placeholder_str()) {
        return None;
    }
    let Card { id, name, desc, closed, labels } = card;
    let desc = if str_eq(desc.as_str(), desc_placeholder_str()) {
        String::new()
    } else {
        desc
    };
    Some(Card { id, name, desc, closed, labels })
}

/// An edit session in which the editor hands back exactly the rendered
/// document reconstructs the original card, so no change is detected. This
/// holds for any open card whose name holds no blank-line separator and whose
/// name and description do not end in whitespace; a trailing-whitespace field
/// cannot survive the trim, and a closed card is reopened by reconstruction.
pub proof fn lemma_identical_edit_unchanged(c: CardView)
    requires
        c.name.len() > 0,
        !is_ws(c.name.last()),
        forall|i: int| !sep_at(c.name, i),
        c.desc.len() > 0 ==> !is_ws(c.desc.last()),
        c.closed == false,
    ensures
        ({
            let doc = trimmed_end(render_spec(c.name, c.desc));
            CardView {
                id: c.id,
                name: parsed_name(doc),
                desc: parsed_desc(doc),
                closed: false,
                labels: c.labels,
            } == c
        }),
{
    let s = render_spec(c.name, c.desc);
    if c.desc.len() > 0 {
        assert(s.len() == c.name.len() + 2 + c.desc.len());
        assert(s[s.len() - 1] == c.desc[c.desc.len() - 1]);
        assert(s.last() == c.desc.last());
        assert(trimmed_end(s) == s);
        crate::codec::lemma_render_parse_round_trip(c.name, c.desc);
        assert(parsed_name(trimmed_end(s)) == c.name);
        assert(parsed_desc(trimmed_end(s)) == c.desc);
    } else {
        let t1 = c.name + seq!['\n', '\n'];
        assert(s =~= t1);
        assert(t1.last() == '\n');
        let t2 = t1.drop_last();
        assert(trimmed_end(t1) == trimmed_end(t2));
        assert(t2 =~= c.name.push('\n'));
        assert(t2.last() == '\n');
        assert(t2.drop_last() =~= c.name);
        assert(trimmed_end(t2) == trimmed_end(c.name));
        assert(trimmed_end(c.name) == c.name);
        crate::codec::lemma_no_sep_parse(c.name);
        assert(c.desc =~= Seq::<char>::empty());
        assert(trimmed_end(s) == c.name);
        assert(parsed_name(trimmed_end(s)) == c.name);
        assert(parsed_desc(trimmed_end(s)) == c.desc);
    }
}

} // verus!
