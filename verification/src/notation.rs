use crate::moves::{first_space, lemma_first_space, lemma_first_space_is_space, CubeMove};
use vstd::prelude::*;
use vstd::string::*;

verus! {

/// The text that writes `moves`: their tokens, separated by single spaces.
pub open spec fn joined(moves: Seq<CubeMove>) -> Seq<char>
    decreases moves.len(),
{
    if moves.len() == 0 {
        Seq::empty()
    } else if moves.len() == 1 {
        moves[0].notation()
    } else {
        joined(moves.drop_last()) + seq![' '] + moves.last().notation()
    }
}

/// The text of two or more moves is the token of the first, a space, and the
/// text of the others.
pub proof fn lemma_joined_first(moves: Seq<CubeMove>)
    requires
        moves.len() >= 2,
    ensures
        joined(moves) == moves[0].notation() + seq![' '] + joined(moves.drop_first()),
    decreases moves.len(),
{
    let head = moves.drop_last();
    let tail = moves.drop_first();
    if moves.len() == 2 {
        assert(head =~= seq![moves[0]]);
        assert(tail =~= seq![moves[1]]);
        assert(joined(head) == moves[0].notation());
        assert(joined(tail) == moves[1].notation());
    } else {
        lemma_joined_first(head);
        assert(head.drop_first() =~= tail.drop_last());
        assert(head[0] == moves[0]);
        assert(tail.last() == moves.last());
        assert(joined(tail) == joined(tail.drop_last()) + seq![' '] + tail.last().notation());
        assert(joined(moves) =~= moves[0].notation() + seq![' '] + joined(tail));
    }
}

/// Reading the text that writes one move or more gives the moves back.
pub proof fn lemma_written_then_read(moves: Seq<CubeMove>)
    requires
        moves.len() > 0,
    ensures
        CubeMove::parsed_sequence(joined(moves)) == Some(moves),
    decreases moves.len(),
{
    let text = joined(moves);
    let token = moves[0].notation();
    moves[0].lemma_notation();
    if moves.len() == 1 {
        lemma_first_space(text, text.len() as int);
        assert(text.take(text.len() as int) =~= token);
        assert(seq![moves[0]] =~= moves);
    } else {
        let rest = moves.drop_first();
        lemma_joined_first(moves);
        assert(text =~= token + seq![' '] + joined(rest));
        assert forall|j: int| 0 <= j < token.len() implies text[j] != ' ' by {
            assert(text[j] == token[j]);
        }
        assert(text[token.len() as int] == ' ');
        lemma_first_space(text, token.len() as int);
        assert(text.take(token.len() as int) =~= token);
        assert(text.skip(token.len() as int + 1) =~= joined(rest));
        lemma_written_then_read(rest);
        assert(seq![moves[0]] + rest =~= moves);
    }
}

/// A text is read as moves only if it is the text that writes them: the
/// moves are one or more, and the text is their tokens with single spaces
/// between them.
pub proof fn lemma_read_is_written(text: Seq<char>)
    requires
        CubeMove::parsed_sequence(text) is Some,
    ensures
        CubeMove::parsed_sequence(text).unwrap().len() > 0,
        joined(CubeMove::parsed_sequence(text).unwrap()) == text,
    decreases text.len(),
{
    let moves = CubeMove::parsed_sequence(text).unwrap();
    let end = first_space(text);
    lemma_first_space_is_space(text);
    let token = text.take(end as int);
    CubeMove::lemma_parsed_is_written(token);
    let first = CubeMove::parsed(token).unwrap();
    if end >= text.len() {
        assert(token =~= text);
        assert(moves =~= seq![first]);
    } else {
        let rest_text = text.skip(end as int + 1);
        lemma_read_is_written(rest_text);
        let rest = CubeMove::parsed_sequence(rest_text).unwrap();
        assert(moves =~= seq![first] + rest);
        assert(moves.drop_first() =~= rest);
        lemma_joined_first(moves);
        assert(text =~= token + seq![' '] + rest_text);
    }
}

/// Writes the moves as tokens separated by single spaces.
pub fn moves_to_string(moves: &Vec<CubeMove>) -> (text: String)
    ensures
        text@ == joined(moves@),
{
    let mut text = String::new();
    let mut i: usize = 0;
    while i < moves.len()
        invariant
            i <= moves@.len(),
            text@ == joined(moves@.take(i as int)),
        decreases moves@.len() - i,
    {
        if i > 0 {
            proof {
                reveal_strlit(" ");
                assert(" "@ =~= seq![' ']);
            }
            text.append(" ");
        }
        let token = moves[i].to_string();
        text.append(token.as_str());
        proof {
            let taken = moves@.take(i + 1);
            assert(taken.drop_last() =~= moves@.take(i as int));
            assert(taken.last() == moves@[i as int]);
            if i == 0 {
                assert(text@ =~= moves@[0].notation());
            }
        }
        i = i + 1;
    }
    assert(moves@.take(i as int) =~= moves@);
    text
}

} // verus!
