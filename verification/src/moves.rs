use crate::faces::Face;
use crate::notation::{joined, lemma_read_is_written, lemma_written_then_read};
use vstd::prelude::*;
use vstd::string::*;

verus! {

/// A turn of one face: a quarter turn clockwise, a half turn, or a quarter
/// turn counter-clockwise (the names that end in `p`, for "prime").
#[derive(Debug, Clone, Copy, PartialEq, Eq, Hash, Structural)]
pub enum CubeMove {
    U,
    U2,
    Up,
    R,
    R2,
    Rp,
    F,
    F2,
    Fp,
    D,
    D2,
    Dp,
    L,
    L2,
    Lp,
    B,
    B2,
    Bp,
}

/// The face that the letter `c` names.
pub open spec fn face_named(c: char) -> Option<Face> {
    if c == 'U' {
        Some(Face::U)
    } else if c == 'D' {
        Some(Face::D)
    } else if c == 'F' {
        Some(Face::F)
    } else if c == 'B' {
        Some(Face::B)
    } else if c == 'L' {
        Some(Face::L)
    } else if c == 'R' {
        Some(Face::R)
    } else {
        None
    }
}

/// The number of characters of `text` before its first space.
pub open spec fn first_space(text: Seq<char>) -> nat
    decreases text.len(),
{
    if text.len() == 0 || text[0] == ' ' {
        0
    } else {
        1 + first_space(text.drop_first())
    }
}

/// `first_space` is the one place at which a space, or the end of the text,
/// follows characters that are no spaces.
pub proof fn lemma_first_space(text: Seq<char>, k: int)
    requires
        0 <= k <= text.len(),
        forall|j: int| 0 <= j < k ==> text[j] != ' ',
        k == text.len() || text[k] == ' ',
    ensures
        first_space(text) == k,
    decreases text.len(),
{
    if k > 0 {
        let rest = text.drop_first();
        assert forall|j: int| 0 <= j < k - 1 implies rest[j] != ' ' by {
            assert(rest[j] == text[j + 1]);
        }
        lemma_first_space(rest, k - 1);
    }
}

impl CubeMove {
    /// The face that the move turns.
    pub open spec fn face(self) -> Face {
        match self {
            CubeMove::U | CubeMove::U2 | CubeMove::Up => Face::U,
            CubeMove::R | CubeMove::R2 | CubeMove::Rp => Face::R,
            CubeMove::F | CubeMove::F2 | CubeMove::Fp => Face::F,
            CubeMove::D | CubeMove::D2 | CubeMove::Dp => Face::D,
            CubeMove::L | CubeMove::L2 | CubeMove::Lp => Face::L,
            CubeMove::B | CubeMove::B2 | CubeMove::Bp => Face::B,
        }
    }

    /// The number of clockwise quarter turns that make up the move: one,
    /// two for a half turn, three for a counter-clockwise quarter turn.
    pub open spec fn quarter_turns(self) -> nat {
        match self {
            CubeMove::U | CubeMove::R | CubeMove::F | CubeMove::D | CubeMove::L | CubeMove::B => 1,
            CubeMove::U2 | CubeMove::R2 | CubeMove::F2 | CubeMove::D2 | CubeMove::L2
            | CubeMove::B2 => 2,
            CubeMove::Up | CubeMove::Rp | CubeMove::Fp | CubeMove::Dp | CubeMove::Lp
            | CubeMove::Bp => 3,
        }
    }

    /// The move that turns `face` by `turns` quarter turns, for one to three
    /// turns.
    pub open spec fn of(face: Face, turns: nat) -> CubeMove {
        match face {
            Face::U => if turns == 1 {
                CubeMove::U
            } else if turns == 2 {
                CubeMove::U2
            } else {
                CubeMove::Up
            },
            Face::R => if turns == 1 {
                CubeMove::R
            } else if turns == 2 {
                CubeMove::R2
            } else {
                CubeMove::Rp
            },
            Face::F => if turns == 1 {
                CubeMove::F
            } else if turns == 2 {
                CubeMove::F2
            } else {
                CubeMove::Fp
            },
            Face::D => if turns == 1 {
                CubeMove::D
            } else if turns == 2 {
                CubeMove::D2
            } else {
                CubeMove::Dp
            },
            Face::L => if turns == 1 {
                CubeMove::L
            } else if turns == 2 {
                CubeMove::L2
            } else {
                CubeMove::Lp
            },
            Face::B => if turns == 1 {
                CubeMove::B
            } else if turns == 2 {
                CubeMove::B2
            } else {
                CubeMove::Bp
            },
        }
    }

    /// The move that undoes this one: the same face, turned the rest of the
    /// way round.
    pub open spec fn inverse(self) -> CubeMove {
        CubeMove::of(self.face(), (4 - self.quarter_turns()) as nat)
    }

    /// The token that writes the move: the face's letter, followed by `2`
    /// for a half turn or by an apostrophe for a counter-clockwise turn.
    pub open spec fn notation(self) -> Seq<char> {
        if self.quarter_turns() == 1 {
            seq![self.face().letter()]
        } else if self.quarter_turns() == 2 {
            seq![self.face().letter(), '2']
        } else {
            seq![self.face().letter(), '\'']
        }
    }

    /// The move that `token` writes, if it writes one.
    pub open spec fn parsed(token: Seq<char>) -> Option<CubeMove> {
        if token.len() == 1 {
            match face_named(token[0]) {
                Some(face) => Some(CubeMove::of(face, 1)),
                None => None,
            }
        } else if token.len() == 2 && token[1] == '2' {
            match face_named(token[0]) {
                Some(face) => Some(CubeMove::of(face, 2)),
                None => None,
            }
        } else if token.len() == 2 && token[1] == '\'' {
            match face_named(token[0]) {
                Some(face) => Some(CubeMove::of(face, 3)),
                None => None,
            }
        } else {
            None
        }
    }

    /// The moves that `text` writes as tokens separated by single spaces.
    /// There is no result if any token, an empty one included, writes no
    /// move.
    pub open spec fn parsed_sequence(text: Seq<char>) -> Option<Seq<CubeMove>>
        decreases text.len(),
    {
        let end = first_space(text);
        if end > text.len() {
            None
        } else {
            match CubeMove::parsed(text.take(end as int)) {
                None => None,
                Some(first) => if end >= text.len() {
                    Some(seq![first])
                } else {
                    match CubeMove::parsed_sequence(text.skip(end as int + 1)) {
                        None => None,
                        Some(rest) => Some(seq![first] + rest),
                    }
                },
            }
        }
    }

    /// A move is made of its face and its number of quarter turns, and its
    /// token is read back as the move.
    pub proof fn lemma_notation(self)
        ensures
            1 <= self.quarter_turns() <= 3,
            CubeMove::of(self.face(), self.quarter_turns()) == self,
            CubeMove::parsed(self.notation()) == Some(self),
            forall|i: int| 0 <= i < self.notation().len() ==> self.notation()[i] != ' ',
    {
    }

    /// A token is read as a move only if it is the token that writes the
    /// move.
    pub proof fn lemma_parsed_is_written(token: Seq<char>)
        requires
            CubeMove::parsed(token) is Some,
        ensures
            CubeMove::parsed(token).unwrap().notation() == token,
    {
        let cube_move = CubeMove::parsed(token).unwrap();
        assert(face_named(token[0]) is Some);
        let face = face_named(token[0]).unwrap();
        assert(face.letter() == token[0]);
        assert(cube_move.notation() =~= token);
    }

    /// Undoing a move twice gives the move again, and a half turn undoes
    /// itself.
    pub proof fn lemma_inverse(self)
        ensures
            self.inverse().inverse() == self,
            self.inverse().face() == self.face(),
            self.quarter_turns() + self.inverse().quarter_turns() == 4,
            self.quarter_turns() == 2 ==> self.inverse() == self,
    {
    }

    /// The face that the move turns.
    pub fn get_face(&self) -> (face: Face)
        ensures
            face == self.face(),
    {
        match self {
            CubeMove::U | CubeMove::U2 | CubeMove::Up => Face::U,
            CubeMove::R | CubeMove::R2 | CubeMove::Rp => Face::R,
            CubeMove::F | CubeMove::F2 | CubeMove::Fp => Face::F,
            CubeMove::D | CubeMove::D2 | CubeMove::Dp => Face::D,
            CubeMove::L | CubeMove::L2 | CubeMove::Lp => Face::L,
            CubeMove::B | CubeMove::B2 | CubeMove::Bp => Face::B,
        }
    }

    /// The number of clockwise quarter turns that make up the move.
    pub fn get_quarter_turns(&self) -> (turns: u8)
        ensures
            turns == self.quarter_turns(),
    {
        match self {
            CubeMove::U | CubeMove::R | CubeMove::F | CubeMove::D | CubeMove::L | CubeMove::B => 1,
            CubeMove::U2 | CubeMove::R2 | CubeMove::F2 | CubeMove::D2 | CubeMove::L2
            | CubeMove::B2 => 2,
            CubeMove::Up | CubeMove::Rp | CubeMove::Fp | CubeMove::Dp | CubeMove::Lp
            | CubeMove::Bp => 3,
        }
    }

    /// The move that turns `face` by `turns` quarter turns.
    pub fn from_turns(face: Face, turns: u8) -> (cube_move: CubeMove)
        requires
            1 <= turns <= 3,
        ensures
            cube_move == CubeMove::of(face, turns as nat),
            cube_move.face() == face,
            cube_move.quarter_turns() == turns,
    {
        match face {
            Face::U => if turns == 1 {
                CubeMove::U
            } else if turns == 2 {
                CubeMove::U2
            } else {
                CubeMove::Up
            },
            Face::R => if turns == 1 {
                CubeMove::R
            } else if turns == 2 {
                CubeMove::R2
            } else {
                CubeMove::Rp
            },
            Face::F => if turns == 1 {
                CubeMove::F
            } else if turns == 2 {
                CubeMove::F2
            } else {
                CubeMove::Fp
            },
            Face::D => if turns == 1 {
                CubeMove::D
            } else if turns == 2 {
                CubeMove::D2
            } else {
                CubeMove::Dp
            },
            Face::L => if turns == 1 {
                CubeMove::L
            } else if turns == 2 {
                CubeMove::L2
            } else {
                CubeMove::Lp
            },
            Face::B => if turns == 1 {
                CubeMove::B
            } else if turns == 2 {
                CubeMove::B2
            } else {
                CubeMove::Bp
            },
        }
    }

    /// The move whose application undoes this one.
    pub fn inverted(&self) -> (cube_move: CubeMove)
        ensures
            cube_move == self.inverse(),
    {
        CubeMove::from_turns(self.get_face(), 4 - self.get_quarter_turns())
    }

    /// The token that writes the move.
    pub fn to_string(&self) -> (token: String)
        ensures
            token@ == self.notation(),
    {
        let mut token = self.get_face().to_string();
        let turns = self.get_quarter_turns();
        proof {
            reveal_strlit("2");
            reveal_strlit("'");
        }
        if turns == 2 {
            token.append("2");
        } else if turns == 3 {
            token.append("'");
        }
        assert(token@ =~= self.notation());
        token
    }

    /// Reads one token: the result is the move that the token writes, and
    /// there is none exactly if the token writes no move.
    pub fn parse(token: &str) -> (cube_move: Option<CubeMove>)
        ensures
            cube_move == CubeMove::parsed(token@),
            match cube_move {
                Some(cube_move) => cube_move.notation() == token@,
                None => forall|other: CubeMove| #[trigger] other.notation() != token@,
            },
    {
        proof {
            if CubeMove::parsed(token@) is Some {
                CubeMove::lemma_parsed_is_written(token@);
            } else {
                assert forall|other: CubeMove| #[trigger] other.notation() != token@ by {
                    other.lemma_notation();
                }
            }
        }
        if !token.is_ascii() {
            proof {
                lemma_parsed_is_ascii(token@);
            }
            return None;
        }
        let bytes = token.as_bytes();
        proof {
            is_ascii_spec_bytes(token);
            assert(token@.subrange(0, token@.len() as int) =~= token@);
            assert(spells(bytes@, token@));
        }
        parse_range(bytes, 0, bytes.len(), Ghost(token@))
    }

    /// Reads a sequence of tokens separated by single spaces. There is no
    /// result if any token writes no move: nothing is read in part. The
    /// result is the one sequence of moves, one or more, that the text
    /// writes, and there is none exactly if the text writes no such
    /// sequence.
    pub fn parse_array(text: &str) -> (moves: Option<Vec<CubeMove>>)
        ensures
            match moves {
                Some(moves) => CubeMove::parsed_sequence(text@) == Some(moves@) && moves@.len() > 0
                    && joined(moves@) == text@,
                None => CubeMove::parsed_sequence(text@) is None && forall|written: Seq<CubeMove>|
                    written.len() > 0 ==> #[trigger] joined(written) != text@,
            },
    {
        let moves = CubeMove::read_tokens(text);
        proof {
            if CubeMove::parsed_sequence(text@) is Some {
                lemma_read_is_written(text@);
            } else {
                assert forall|written: Seq<CubeMove>| written.len() > 0 implies #[trigger] joined(
                    written,
                ) != text@ by {
                    lemma_written_then_read(written);
                }
            }
        }
        moves
    }

    /// Reads the text token by token, from the left.
    fn read_tokens(text: &str) -> (moves: Option<Vec<CubeMove>>)
        ensures
            match moves {
                Some(moves) => CubeMove::parsed_sequence(text@) == Some(moves@),
                None => CubeMove::parsed_sequence(text@) is None,
            },
    {
        if !text.is_ascii() {
            proof {
                lemma_sequence_is_ascii(text@);
            }
            return None;
        }
        let bytes = text.as_bytes();
        let ghost chars = text@;
        proof {
            is_ascii_spec_bytes(text);
            assert(chars.skip(0) =~= chars);
            assert(spells(bytes@, chars));
        }
        let n = bytes.len();
        let mut cube_moves: Vec<CubeMove> = Vec::new();
        let mut start: usize = 0;
        loop
            invariant
                n == bytes@.len(),
                n == chars.len(),
                chars == text@,
                spells(bytes@, chars),
                start <= n,
                CubeMove::parsed_sequence(chars) == prepend(
                    cube_moves@,
                    CubeMove::parsed_sequence(chars.skip(start as int)),
                ),
            decreases n - start,
        {
            let mut end = start;
            while end < n && bytes[end] != 32
                invariant
                    n == bytes@.len(),
                    n == chars.len(),
                    spells(bytes@, chars),
                    start <= end <= n,
                    forall|j: int| start <= j < end ==> chars[j] != ' ',
                decreases n - end,
            {
                proof {
                    lemma_ascii_byte(chars[end as int], bytes@[end as int]);
                }
                end = end + 1;
            }
            let ghost rest = chars.skip(start as int);
            proof {
                assert forall|j: int| 0 <= j < end - start implies rest[j] != ' ' by {
                    assert(rest[j] == chars[start + j]);
                }
                if end < n {
                    assert(rest[end - start] == chars[end as int]);
                    lemma_ascii_byte(chars[end as int], bytes@[end as int]);
                }
                lemma_first_space(rest, end - start);
                assert(rest.take(end - start) =~= chars.subrange(start as int, end as int));
                if end < n {
                    assert(rest.skip(end - start + 1) =~= chars.skip(end + 1));
                }
            }
            match parse_range(bytes, start, end, Ghost(chars)) {
                None => {
                    return None;
                },
                Some(cube_move) => {
                    let ghost before = cube_moves@;
                    cube_moves.push(cube_move);
                    if end >= n {
                        assert(before + seq![cube_move] =~= cube_moves@);
                        return Some(cube_moves);
                    }
                    proof {
                        let tail = CubeMove::parsed_sequence(chars.skip(end + 1));
                        if let Some(moves) = tail {
                            assert(before + (seq![cube_move] + moves) =~= cube_moves@ + moves);
                        }
                    }
                    start = end + 1;
                },
            }
        }
    }
}

/// An ASCII character is a space, a `2` or an apostrophe exactly when its
/// byte is.
proof fn lemma_ascii_byte(c: char, byte: u8)
    requires
        c <= '\u{7f}',
        c as u8 == byte,
    ensures
        (byte == 32) == (c == ' '),
        (byte == 50) == (c == '2'),
        (byte == 39) == (c == '\''),
{
}

/// The bytes are the ASCII characters of the text, one for one.
spec fn spells(bytes: Seq<u8>, chars: Seq<char>) -> bool {
    &&& bytes.len() == chars.len()
    &&& forall|i: int|
        #![trigger chars[i]]
        0 <= i < chars.len() ==> chars[i] <= '\u{7f}' && chars[i] as u8 == bytes[i]
}

/// `moves` put in front of what `rest` holds, if it holds anything.
spec fn prepend(moves: Seq<CubeMove>, rest: Option<Seq<CubeMove>>) -> Option<
    Seq<CubeMove>,
> {
    match rest {
        Some(rest) => Some(moves + rest),
        None => None,
    }
}

/// A token that writes a move is made of ASCII characters.
proof fn lemma_parsed_is_ascii(token: Seq<char>)
    requires
        !vstd::utf8::is_ascii_chars(token),
    ensures
        CubeMove::parsed(token) is None,
{
    if CubeMove::parsed(token) is Some {
        assert(forall|i: int| 0 <= i < token.len() ==> '\0' <= #[trigger] token[i] <= '\u{7f}');
    }
}

/// A text that writes moves is made of ASCII characters.
proof fn lemma_sequence_is_ascii(text: Seq<char>)
    requires
        !vstd::utf8::is_ascii_chars(text),
    ensures
        CubeMove::parsed_sequence(text) is None,
    decreases text.len(),
{
    let end = first_space(text);
    let bad = choose|i: int| 0 <= i < text.len() && !('\0' <= #[trigger] text[i] <= '\u{7f}');
    if end <= text.len() {
        let token = text.take(end as int);
        if bad < end {
            assert(token[bad] == text[bad]);
            lemma_parsed_is_ascii(token);
        } else if end < text.len() {
            lemma_first_space_is_space(text);
            let rest = text.skip(end as int + 1);
            assert(rest[bad - end - 1] == text[bad]);
            lemma_sequence_is_ascii(rest);
        } else {
        }
    }
}

/// Where the first token of `text` ends before the text does, a space
/// follows it.
pub proof fn lemma_first_space_is_space(text: Seq<char>)
    ensures
        first_space(text) <= text.len(),
        first_space(text) < text.len() ==> text[first_space(text) as int] == ' ',
        forall|j: int| 0 <= j < first_space(text) ==> text[j] != ' ',
    decreases text.len(),
{
    if text.len() > 0 && text[0] != ' ' {
        let rest = text.drop_first();
        lemma_first_space_is_space(rest);
        assert forall|j: int| 0 <= j < first_space(text) implies text[j] != ' ' by {
            if j > 0 {
                assert(rest[j - 1] == text[j]);
            }
        }
    }
}

fn face_of_byte(byte: u8, Ghost(c): Ghost<char>) -> (face: Option<Face>)
    requires
        c <= '\u{7f}',
        c as u8 == byte,
    ensures
        face == face_named(c),
{
    if byte == 85 {
        Some(Face::U)
    } else if byte == 68 {
        Some(Face::D)
    } else if byte == 70 {
        Some(Face::F)
    } else if byte == 66 {
        Some(Face::B)
    } else if byte == 76 {
        Some(Face::L)
    } else if byte == 82 {
        Some(Face::R)
    } else {
        None
    }
}

fn parse_range(bytes: &[u8], from: usize, to: usize, Ghost(chars): Ghost<Seq<char>>) -> (cube_move:
    Option<CubeMove>)
    requires
        from <= to <= bytes@.len(),
        spells(bytes@, chars),
    ensures
        cube_move == CubeMove::parsed(chars.subrange(from as int, to as int)),
{
    let ghost token = chars.subrange(from as int, to as int);
    let len = to - from;
    if len == 0 || len > 2 {
        return None;
    }
    assert(token[0] == chars[from as int]);
    let turns: u8 = if len == 1 {
        1
    } else {
        assert(token[1] == chars[from + 1]);
        let suffix = bytes[from + 1];
        proof {
            lemma_ascii_byte(chars[from + 1], suffix);
        }
        if suffix == 50 {
            2
        } else if suffix == 39 {
            3
        } else {
            return None;
        }
    };
    match face_of_byte(bytes[from], Ghost(chars[from as int])) {
        Some(face) => Some(CubeMove::from_turns(face, turns)),
        None => None,
    }
}

} // verus!
