//! Name-pattern resolution: selecting exactly one named object out of a
//! collection with a regular expression, and walking the Board -> List ->
//! Card hierarchy with one pattern per level, including the "all lists"
//! wildcard.
use vstd::prelude::*;
use vstd::slice::slice_index_get;
use vstd::string::StringExecFns;

use crate::domain::{Board, Card, List, TrelloObject};

verus! {

/// Whether `pattern` compiles as a regular expression under the given case
/// flag; the result of `regex::RegexBuilder::build`, a function of its
/// arguments alone.
pub uninterp spec fn pattern_compiles(pattern: Seq<char>, ignore_case: bool) -> bool;

/// Whether a compiled `pattern` matches anywhere inside `text` (unanchored
/// substring search); the result of `regex::Regex::is_match`, a function of
/// its arguments alone.
pub uninterp spec fn pattern_matches(pattern: Seq<char>, ignore_case: bool, text: Seq<char>) -> bool;

/// Relies on `regex::RegexBuilder::build` with `case_insensitive` set:
/// whether a pattern compiles depends on the pattern text and the flag alone.
/// The error carries the message rendered by the regex crate.
#[verifier::external_body]
fn try_compile(pattern: &str, ignore_case: bool) -> (r: Result<(), String>)
    ensures
        r is Ok <==> pattern_compiles(pattern@, ignore_case),
{
    match regex::RegexBuilder::new(pattern).case_insensitive(ignore_case).build() {
        Ok(_) => Ok(()),
        Err(e) => Err(format!("{}", e)),
    }
}

/// Relies on `regex::RegexBuilder::build` and `regex::Regex::is_match`: an
/// unanchored search whose outcome depends on pattern, flag and haystack
/// alone. The `unwrap` cannot fail on the inputs `requires` admits.
#[verifier::external_body]
fn regex_is_match(pattern: &str, ignore_case: bool, text: &str) -> (r: bool)
    requires
        pattern_compiles(pattern@, ignore_case),
    ensures
        r == pattern_matches(pattern@, ignore_case, text@),
{
    let re = regex::RegexBuilder::new(pattern).case_insensitive(ignore_case).build().unwrap();
    re.is_match(text)
}

/// A classified failure of name resolution. Variants carry structured
/// context (type label, pattern, candidate names) so that a caller can
/// compose a user-facing message.
#[derive(Debug, PartialEq)]
pub enum FindError {
    /// The pattern did not compile as a regular expression; carries the
    /// compile error's text.
    Regex(String),
    /// More than one object matched: the type label, the pattern, and every
    /// matched name in input order.
    Multiple(String, String, Vec<String>),
    /// No object matched: the type label and the pattern.
    NotFound(String, String),
    /// The list wildcard was used without a card pattern; carries the
    /// explanation.
    WildCard(String),
}

/// Whether one object's name matches the pattern.
pub open spec fn obj_matches<T: TrelloObject>(o: T, pattern: Seq<char>, ignore_case: bool) -> bool {
    pattern_matches(pattern, ignore_case, o.name_spec())
}

/// The objects whose names match the pattern, in input order.
pub open spec fn matched_objects<T: TrelloObject>(
    objs: Seq<T>,
    pattern: Seq<char>,
    ignore_case: bool,
) -> Seq<T>
    decreases objs.len(),
{
    if objs.len() == 0 {
        Seq::empty()
    } else {
        let rest = matched_objects(objs.drop_last(), pattern, ignore_case);
        if obj_matches(objs.last(), pattern, ignore_case) {
            rest.push(objs.last())
        } else {
            rest
        }
    }
}

/// The names of the matching objects, in input order.
pub open spec fn matched_names<T: TrelloObject>(
    objs: Seq<T>,
    pattern: Seq<char>,
    ignore_case: bool,
) -> Seq<Seq<char>> {
    matched_objects(objs, pattern, ignore_case).map_values(|o: T| o.name_spec())
}

/// The classified failure a match of `pattern` over `objs` reports: which
/// variant comes on which inputs, and what context it carries.
pub open spec fn match_failure<T: TrelloObject>(
    objs: Seq<T>,
    pattern: Seq<char>,
    ignore_case: bool,
    e: FindError,
) -> bool {
    &&& (e is Regex <==> !pattern_compiles(pattern, ignore_case))
    &&& (e is NotFound <==> pattern_compiles(pattern, ignore_case) && matched_objects(
        objs,
        pattern,
        ignore_case,
    ).len() == 0)
    &&& (e is Multiple <==> pattern_compiles(pattern, ignore_case) && matched_objects(
        objs,
        pattern,
        ignore_case,
    ).len() >= 2)
    &&& (e matches FindError::NotFound(lbl, pat) ==> lbl@ == T::type_label_spec() && pat@
        == pattern)
    &&& (e matches FindError::Multiple(lbl, pat, names) ==> lbl@ == T::type_label_spec() && pat@
        == pattern && names@.map_values(|s: String| s@) == matched_names(
        objs,
        pattern,
        ignore_case,
    ))
}

/// Searches a collection of named objects for the one object whose name
/// matches `name` as a regular expression.
///
/// Exactly one match is returned; zero matches and several matches are
/// classified failures, the latter listing every matched name in input order
/// so the caller can refine the pattern. Ambiguity is never resolved
/// silently.
pub fn get_object_by_name<'a, T: TrelloObject>(
    objects: &'a [T],
    name: &str,
    ignore_case: bool,
) -> (r: Result<&'a T, FindError>)
    ensures
        r is Ok <==> pattern_compiles(name@, ignore_case) && matched_objects(
            objects@,
            name@,
            ignore_case,
        ).len() == 1,
        r matches Ok(o) ==> *o == matched_objects(objects@, name@, ignore_case)[0],
        r matches Err(e) ==> match_failure::<T>(objects@, name@, ignore_case, e),
{
    if let Err(msg) = try_compile(name, ignore_case) {
        return Err(FindError::Regex(msg));
    }
    let mut idxs: Vec<usize> = Vec::new();
    let mut names: Vec<String> = Vec::new();
    let mut i: usize = 0;
    while i < objects.len()
        invariant
            pattern_compiles(name@, ignore_case),
            i <= objects@.len(),
            idxs@.len() == matched_objects(objects@.take(i as int), name@, ignore_case).len(),
            names@.len() == idxs@.len(),
            forall|k: int|
                0 <= k < idxs@.len() ==> #[trigger] idxs@[k] < i && objects@[idxs@[k] as int]
                    == matched_objects(objects@.take(i as int), name@, ignore_case)[k],
            forall|k: int|
                0 <= k < names@.len() ==> (#[trigger] names@[k])@ == matched_objects(
                    objects@.take(i as int),
                    name@,
                    ignore_case,
                )[k].name_spec(),
        decreases objects@.len() - i,
    {
        let o = slice_index_get(objects, i);
        proof {
            assert(objects@.take(i as int + 1).drop_last() =~= objects@.take(i as int));
            assert(objects@.take(i as int + 1).last() == objects@[i as int]);
        }
        if regex_is_match(name, ignore_case, o.get_name()) {
            idxs.push(i);
            names.push(o.get_name().to_owned());
        }
        i = i + 1;
    }
    proof {
        assert(objects@.take(objects@.len() as int) =~= objects@);
    }
    if idxs.len() == 1 {
        let idx = idxs[0];
        Ok(slice_index_get(objects, idx))
    } else if idxs.len() > 1 {
        proof {
            assert(names@.map_values(|s: String| s@) =~= matched_names(
                objects@,
                name@,
                ignore_case,
            ));
        }
        Err(FindError::Multiple(T::get_type(), name.to_owned(), names))
    } else {
        Err(FindError::NotFound(T::get_type(), name.to_owned()))
    }
}

/// The name filters of one resolution: at most one pattern per hierarchy
/// level, and the case flag shared by all levels.
pub struct TrelloParams<'a> {
    pub board_name: Option<&'a str>,
    pub list_name: Option<&'a str>,
    pub card_name: Option<&'a str>,
    pub ignore_case: bool,
}

/// The outcome of one resolution: the objects traversed, deepest requested
/// level last. `card` without `list` means the wildcard path was taken.
#[derive(Debug)]
pub struct TrelloResult {
    pub board: Option<Board>,
    pub list: Option<List>,
    pub card: Option<Card>,
}

/// The fetch-before-traverse obligation on a selected board: whatever depth
/// the filters will read must have been fetched already. The wildcard with no
/// card pattern reads nothing (it is rejected first).
pub open spec fn board_ready(board: Board, params: TrelloParams) -> bool {
    match params.list_name {
        Option::None => true,
        Option::Some(ln) => {
            if ln@ == "-"@ {
                params.card_name is Some ==> board.fully_loaded()
            } else {
                board.lists_loaded() && (params.card_name is Some ==> board.fully_loaded())
            }
        },
    }
}

/// Every card of every list, flattened in list order: the candidate set of
/// the wildcard path, which ignores list boundaries.
pub open spec fn flat_cards(lists: Seq<List>) -> Seq<Card>
    decreases lists.len(),
{
    if lists.len() == 0 {
        Seq::empty()
    } else {
        flat_cards(lists.drop_last()) + lists.last().cards->0@
    }
}

/// What resolving the filters inside one selected board returns: the complete
/// case split over list pattern, wildcard and card pattern.
pub open spec fn resolution_spec(
    board: Board,
    params: TrelloParams,
    r: Result<TrelloResult, FindError>,
) -> bool {
    let ic = params.ignore_case;
    match params.list_name {
        Option::None => ({
            &&& r matches Ok(t)
            &&& t.board matches Some(b)
            &&& b@ == board@
            &&& t.list is None
            &&& t.card is None
        }),
        Option::Some(ln) => {
            if ln@ == "-"@ {
                match params.card_name {
                    Option::None => r matches Err(e) && e is WildCard,
                    Option::Some(cn) => {
                        let cards = flat_cards(board.lists->0@);
                        &&& (r is Ok <==> pattern_compiles(cn@, ic) && matched_objects(
                            cards,
                            cn@,
                            ic,
                        ).len() == 1)
                        &&& (r matches Ok(t) ==> ({
                            &&& t.board matches Some(b)
                            &&& b@ == board@
                            &&& t.list is None
                            &&& t.card matches Some(c)
                            &&& c@ == matched_objects(cards, cn@, ic)[0]@
                        }))
                        &&& (r matches Err(e) ==> match_failure::<Card>(cards, cn@, ic, e))
                    },
                }
            } else {
                let lists = board.lists->0@;
                &&& (!(pattern_compiles(ln@, ic) && matched_objects(lists, ln@, ic).len() == 1)
                    ==> (r matches Err(e) && match_failure::<List>(lists, ln@, ic, e)))
                &&& (pattern_compiles(ln@, ic) && matched_objects(lists, ln@, ic).len() == 1 ==> ({
                    let l = matched_objects(lists, ln@, ic)[0];
                    match params.card_name {
                        Option::None => ({
                            &&& r matches Ok(t)
                            &&& t.board matches Some(b)
                            &&& b@ == board@
                            &&& t.list matches Some(tl)
                            &&& tl@ == l@
                            &&& t.card is None
                        }),
                        Option::Some(cn) => {
                            let cards = l.cards->0@;
                            &&& (r is Ok <==> pattern_compiles(cn@, ic) && matched_objects(
                                cards,
                                cn@,
                                ic,
                            ).len() == 1)
                            &&& (r matches Ok(t) ==> ({
                                &&& t.board matches Some(b)
                                &&& b@ == board@
                                &&& t.list matches Some(tl)
                                &&& tl@ == l@
                                &&& t.card matches Some(c)
                                &&& c@ == matched_objects(cards, cn@, ic)[0]@
                            }))
                            &&& (r matches Err(e) ==> match_failure::<Card>(cards, cn@, ic, e))
                        },
                    }
                }))
            }
        },
    }
}

/// Every matched object is one of the input objects.
proof fn lemma_matched_from_input<T: TrelloObject>(objs: Seq<T>, pattern: Seq<char>, ic: bool)
    ensures
        forall|k: int|
            0 <= k < matched_objects(objs, pattern, ic).len() ==> exists|j: int|
                0 <= j < objs.len() && objs[j] == #[trigger] matched_objects(objs, pattern, ic)[k],
    decreases objs.len(),
{
    if objs.len() == 0 {
    } else {
        lemma_matched_from_input(objs.drop_last(), pattern, ic);
        let rest = matched_objects(objs.drop_last(), pattern, ic);
        assert forall|k: int| 0 <= k < matched_objects(objs, pattern, ic).len() implies exists|
            j: int,
        |
            0 <= j < objs.len() && objs[j] == #[trigger] matched_objects(objs, pattern, ic)[k] by {
            if k < rest.len() {
                let j = choose|j: int|
                    0 <= j < objs.drop_last().len() && objs.drop_last()[j] == rest[k];
                assert(objs[j] == objs.drop_last()[j]);
            } else {
                assert(objs[objs.len() - 1] == objs.last());
            }
        }
    }
}

/// Matching looks only at names, so two card sequences equal view by view
/// match the same way.
proof fn lemma_matched_cards_by_view(a: Seq<Card>, b: Seq<Card>, pattern: Seq<char>, ic: bool)
    requires
        a.len() == b.len(),
        forall|i: int| 0 <= i < a.len() ==> (#[trigger] a[i])@ == b[i]@,
    ensures
        matched_objects(a, pattern, ic).len() == matched_objects(b, pattern, ic).len(),
        forall|k: int|
            0 <= k < matched_objects(a, pattern, ic).len() ==> (#[trigger] matched_objects(
                a,
                pattern,
                ic,
            )[k])@ == matched_objects(b, pattern, ic)[k]@,
        matched_names(a, pattern, ic) == matched_names(b, pattern, ic),
    decreases a.len(),
{
    if a.len() == 0 {
        assert(matched_names(a, pattern, ic) =~= matched_names(b, pattern, ic));
    } else {
        assert(a[a.len() - 1]@ == b[a.len() - 1]@);
        lemma_matched_cards_by_view(a.drop_last(), b.drop_last(), pattern, ic);
        assert(a.last().name_spec() == b.last().name_spec());
        assert(matched_names(a, pattern, ic) =~= matched_names(b, pattern, ic));
    }
}

/// Clones every card of every list into one flat vector, in list order.
fn flatten_cards(lists: &Vec<List>) -> (r: Vec<Card>)
    requires
        forall|i: int| 0 <= i < lists@.len() ==> (#[trigger] lists@[i]).cards_loaded(),
    ensures
        r@.len() == flat_cards(lists@).len(),
        forall|k: int| 0 <= k < r@.len() ==> (#[trigger] r@[k])@ == flat_cards(lists@)[k]@,
{
    let mut out: Vec<Card> = Vec::new();
    let mut i: usize = 0;
    while i < lists.len()
        invariant
            forall|n: int| 0 <= n < lists@.len() ==> (#[trigger] lists@[n]).cards_loaded(),
            i <= lists@.len(),
            out@.len() == flat_cards(lists@.take(i as int)).len(),
            forall|k: int|
                0 <= k < out@.len() ==> (#[trigger] out@[k])@ == flat_cards(
                    lists@.take(i as int),
                )[k]@,
        decreases lists@.len() - i,
    {
        proof {
            assert(lists@.take(i as int + 1).drop_last() =~= lists@.take(i as int));
            assert(lists@.take(i as int + 1).last() == lists@[i as int]);
        }
        let cs = match &lists[i].cards {
            Option::Some(cs) => cs,
            Option::None => {
                proof {
                    assert(false);
                }
                return out;
            },
        };
        let mut j: usize = 0;
        while j < cs.len()
            invariant
                cs@ == lists@[i as int].cards->0@,
                j <= cs@.len(),
                out@.len() == flat_cards(lists@.take(i as int)).len() + j,
                flat_cards(lists@.take(i as int)).len() + cs@.len() == flat_cards(
                    lists@.take(i as int + 1),
                ).len(),
                forall|k: int|
                    0 <= k < flat_cards(lists@.take(i as int)).len() ==> (#[trigger] out@[k])@
                        == flat_cards(lists@.take(i as int))[k]@,
                forall|k: int|
                    flat_cards(lists@.take(i as int)).len() <= k < out@.len() ==> (
                    #[trigger] out@[k])@ == cs@[k - flat_cards(lists@.take(i as int)).len()]@,
            decreases cs@.len() - j,
        {
            out.push(cs[j].clone());
            j = j + 1;
        }
        proof {
            assert(flat_cards(lists@.take(i as int + 1)) == flat_cards(lists@.take(i as int))
                + lists@[i as int].cards->0@);
            assert(forall|k: int|
                0 <= k < out@.len() ==> (#[trigger] out@[k])@ == flat_cards(
                    lists@.take(i as int + 1),
                )[k]@);
        }
        i = i + 1;
    }
    proof {
        assert(lists@.take(lists@.len() as int) =~= lists@);
    }
    out
}

/// Resolves the list and card filters inside one already selected board,
/// honouring the `-` wildcard that searches cards across all lists. The
/// board's nested collections must have been fetched to the depth the
/// filters will read.
pub fn resolve_in_board(board: &Board, params: &TrelloParams<'_>) -> (r: Result<
    TrelloResult,
    FindError,
>)
    requires
        board_ready(*board, *params),
    ensures
        resolution_spec(*board, *params, r),
{
    let ic = params.ignore_case;
    let ln = match params.list_name {
        Option::None => {
            return Ok(
                TrelloResult { board: Option::Some(board.clone()), list: Option::None, card: Option::None },
            );
        },
        Option::Some(ln) => ln,
    };
    if crate::text::str_eq(ln, "-") {
        let cn = match params.card_name {
            Option::None => {
                return Err(
                    FindError::WildCard(
                        "Card name must be specified with list '-' wildcard".to_owned(),
                    ),
                );
            },
            Option::Some(cn) => cn,
        };
        let lists = match &board.lists {
            Option::Some(ls) => ls,
            Option::None => {
                proof {
                    assert(false);
                }
                return Err(FindError::WildCard(String::new()));
            },
        };
        let cards = flatten_cards(lists);
        proof {
            lemma_matched_cards_by_view(cards@, flat_cards(board.lists->0@), cn@, ic);
        }
        match get_object_by_name(cards.as_slice(), cn, ic) {
            Ok(c) => Ok(
                TrelloResult {
                    board: Option::Some(board.clone()),
                    list: Option::None,
                    card: Option::Some(c.clone()),
                },
            ),
            Err(e) => Err(e),
        }
    } else {
        let lists = match &board.lists {
            Option::Some(ls) => ls,
            Option::None => {
                proof {
                    assert(false);
                }
                return Err(FindError::WildCard(String::new()));
            },
        };
        let list = match get_object_by_name(lists.as_slice(), ln, ic) {
            Ok(l) => l,
            Err(e) => {
                return Err(e);
            },
        };
        let cn = match params.card_name {
            Option::None => {
                return Ok(
                    TrelloResult {
                        board: Option::Some(board.clone()),
                        list: Option::Some(list.clone()),
                        card: Option::None,
                    },
                );
            },
            Option::Some(cn) => cn,
        };
        proof {
            lemma_matched_from_input::<List>(lists@, ln@, ic);
        }
        let cards = match &list.cards {
            Option::Some(cs) => cs,
            Option::None => {
                proof {
                    let j = choose|j: int|
                        0 <= j < lists@.len() && lists@[j] == matched_objects(lists@, ln@, ic)[0];
                    assert(lists@[j].cards_loaded());
                    assert(false);
                }
                return Err(FindError::WildCard(String::new()));
            },
        };
        match get_object_by_name(cards.as_slice(), cn, ic) {
            Ok(c) => Ok(
                TrelloResult {
                    board: Option::Some(board.clone()),
                    list: Option::Some(list.clone()),
                    card: Option::Some(c.clone()),
                },
            ),
            Err(e) => Err(e),
        }
    }
}

/// Resolves the optional board, list and card filters against an already
/// fetched collection of boards: the retrieve-everything-at-once strategy.
/// With no board filter the result is all-absent (the "list all boards"
/// case, handled by the caller); otherwise exactly one board must match, and
/// resolution continues inside it.
pub fn get_trello_object(boards: &Vec<Board>, params: &TrelloParams<'_>) -> (r: Result<
    TrelloResult,
    FindError,
>)
    requires
        params.board_name is Some ==> forall|i: int|
            0 <= i < boards@.len() ==> board_ready(#[trigger] boards@[i], *params),
    ensures
        params.board_name is None ==> ({
            &&& r matches Ok(t)
            &&& t.board is None
            &&& t.list is None
            &&& t.card is None
        }),
        params.board_name matches Some(bn) ==> ({
            let ic = params.ignore_case;
            &&& (!(pattern_compiles(bn@, ic) && matched_objects(boards@, bn@, ic).len() == 1) ==> (
            r matches Err(e) && match_failure::<Board>(boards@, bn@, ic, e)))
            &&& (pattern_compiles(bn@, ic) && matched_objects(boards@, bn@, ic).len() == 1
                ==> resolution_spec(matched_objects(boards@, bn@, ic)[0], *params, r))
        }),
{
    let bn = match params.board_name {
        Option::None => {
            return Ok(
                TrelloResult { board: Option::None, list: Option::None, card: Option::None },
            );
        },
        Option::Some(bn) => bn,
    };
    let board = match get_object_by_name(boards.as_slice(), bn, params.ignore_case) {
        Ok(b) => b,
        Err(e) => {
            return Err(e);
        },
    };
    proof {
        lemma_matched_from_input::<Board>(boards@, bn@, params.ignore_case);
        let j = choose|j: int|
            0 <= j < boards@.len() && boards@[j] == matched_objects(
                boards@,
                bn@,
                params.ignore_case,
            )[0];
        assert(board_ready(boards@[j], *params));
    }
    resolve_in_board(board, params)
}

} // verus!
