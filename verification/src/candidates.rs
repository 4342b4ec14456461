//! The candidates in the service's answer and the line that carries them to
//! the client.

use crate::error::SearchError;
use crate::json::{lemma_array_view, unexpected_shape, JsonTree, JsonValue, JSON_ERROR_MSG};
use vstd::prelude::*;
use vstd::string::StringExecFns;

verus! {

/// The texts of strings taken as plain character sequences.
pub open spec fn views(texts: Seq<String>) -> Seq<Seq<char>> {
    Seq::new(texts.len(), |i: int| texts[i]@)
}

/// The texts of `items` if every one of them is a string.
pub open spec fn texts_of(items: Seq<JsonTree>) -> Option<Seq<Seq<char>>> {
    if forall|i: int| 0 <= i < items.len() ==> #[trigger] items[i] is Text {
        Some(Seq::new(items.len(), |i: int| items[i]->Text_0))
    } else {
        None
    }
}

/// The second item of an entry, where the candidates stand, if the entry
/// is an array and that item is one too.
pub open spec fn items_of(entry: JsonTree) -> Option<Seq<JsonTree>> {
    match entry {
        JsonTree::Array(parts) => if parts.len() >= 2 {
            match parts[1] {
                JsonTree::Array(items) => Some(items),
                _ => None,
            }
        } else {
            None
        },
        _ => None,
    }
}

/// The candidates of an answer of the shape
/// `[[reading, [candidate, ...]], ...]`: those of its first entry, in the
/// order given. `None` for a document of any other shape.
pub open spec fn candidate_texts(document: JsonTree) -> Option<Seq<Seq<char>>> {
    match document {
        JsonTree::Array(entries) => if entries.len() >= 1 {
            match items_of(entries[0]) {
                Some(items) => texts_of(items),
                None => None,
            }
        } else {
            None
        },
        _ => None,
    }
}

/// The texts of `items`, all of which have to be strings.
fn texts(items: &Vec<JsonValue>) -> (found: Option<Vec<String>>)
    ensures
        match found {
            Some(list) => texts_of(items@.map_values(|item: JsonValue| item@)) == Some(
                views(list@),
            ),
            None => texts_of(items@.map_values(|item: JsonValue| item@)) is None,
        },
{
    let ghost trees = items@.map_values(|item: JsonValue| item@);
    let mut list: Vec<String> = Vec::new();
    let mut i: usize = 0;
    while i < items.len()
        invariant
            i <= items@.len(),
            list@.len() == i,
            trees == items@.map_values(|item: JsonValue| item@),
            forall|j: int| 0 <= j < i ==> #[trigger] trees[j] is Text,
            forall|j: int| 0 <= j < i ==> (#[trigger] list@[j])@ == trees[j]->Text_0,
        decreases items@.len() - i,
    {
        match &items[i] {
            JsonValue::Text(text) => {
                list.push(text.clone());
            },
            _ => {
                assert(!(trees[i as int] is Text));
                return None;
            },
        }
        i = i + 1;
    }
    assert(views(list@) =~= Seq::new(trees.len(), |i: int| trees[i]->Text_0));
    Some(list)
}

/// The second item of an entry, where the candidates stand.
fn candidate_items(entry: &JsonValue) -> (found: Option<&Vec<JsonValue>>)
    ensures
        match found {
            Some(items) => items_of(entry@) == Some(items@.map_values(|item: JsonValue| item@)),
            None => items_of(entry@) is None,
        },
{
    match entry {
        JsonValue::Array(parts) => {
            proof {
                lemma_array_view(*parts);
            }
            if parts.len() < 2 {
                return None;
            }
            match &parts[1] {
                JsonValue::Array(items) => {
                    proof {
                        lemma_array_view(*items);
                    }
                    Some(items)
                },
                _ => None,
            }
        },
        _ => None,
    }
}

/// Takes the candidates out of the service's answer.
///
/// The answer is an array whose first item is an array, whose second item
/// in turn is an array of strings. Anything else is refused.
pub fn candidates(document: &JsonValue) -> (found: Result<Vec<String>, SearchError>)
    ensures
        match found {
            Ok(list) => candidate_texts(document@) == Some(views(list@)),
            Err(error) => candidate_texts(document@) is None && unexpected_shape(error),
        },
{
    let items = match document {
        JsonValue::Array(entries) => {
            proof {
                lemma_array_view(*entries);
            }
            if entries.len() < 1 {
                None
            } else {
                candidate_items(&entries[0])
            }
        },
        _ => None,
    };
    match items {
        Some(items) => match texts(items) {
            Some(list) => Ok(list),
            None => Err(SearchError::Msg(JSON_ERROR_MSG)),
        },
        None => Err(SearchError::Msg(JSON_ERROR_MSG)),
    }
}

/// Each candidate with the delimiter in front of it.
pub open spec fn fields(candidates: Seq<Seq<char>>, delimiter: Seq<char>) -> Seq<char>
    decreases candidates.len(),
{
    if candidates.len() == 0 {
        Seq::empty()
    } else {
        fields(candidates.drop_last(), delimiter) + delimiter + candidates.last()
    }
}

/// The line that answers a request: `1`, the candidates, each with the
/// delimiter in front of it, one more delimiter and a line feed.
pub open spec fn line(candidates: Seq<Seq<char>>, delimiter: Seq<char>) -> Seq<char> {
    seq!['1'] + fields(candidates, delimiter) + delimiter + seq!['\n']
}

/// Writes the line that answers a request. Without candidates it is `1`,
/// the delimiter and a line feed.
pub fn format_candidates(candidates: &Vec<String>, delimiter: &str) -> (text: String)
    ensures
        text@ == line(views(candidates@), delimiter@),
{
    let mut text = String::from_str("1");
    proof {
        reveal_strlit("1");
        reveal_strlit("\n");
        assert(text@ =~= seq!['1'] + fields(views(candidates@).take(0), delimiter@));
    }
    let mut i: usize = 0;
    while i < candidates.len()
        invariant
            i <= candidates@.len(),
            text@ == seq!['1'] + fields(views(candidates@).take(i as int), delimiter@),
        decreases candidates@.len() - i,
    {
        text.append(delimiter);
        text.append(candidates[i].as_str());
        proof {
            let all = views(candidates@);
            assert(all.take(i + 1).drop_last() =~= all.take(i as int));
            assert(all.take(i + 1).last() == candidates@[i as int]@);
            assert(text@ =~= seq!['1'] + fields(all.take(i + 1), delimiter@));
        }
        i = i + 1;
    }
    proof {
        assert(views(candidates@).take(i as int) =~= views(candidates@));
    }
    text.append(delimiter);
    text.append("\n");
    proof {
        assert(text@ =~= line(views(candidates@), delimiter@));
    }
    text
}

} // verus!
