use vstd::prelude::*;

verus! {

/// The six kinds of chess pieces.
#[derive(Clone, Copy, Debug, PartialEq, Eq, Structural)]
pub enum PieceKind {
    Pawn,
    Knight,
    Bishop,
    Rook,
    Queen,
    King,
}

/// The two sides of a game.
#[derive(Clone, Copy, Debug, PartialEq, Eq, Structural)]
pub enum Side {
    White,
    Black,
}

/// What stands on an occupied square.
#[derive(Clone, Copy, Debug, PartialEq, Eq, Structural)]
pub struct Occupant {
    pub kind: PieceKind,
    pub side: Side,
}

pub open spec fn opposite(s: Side) -> Side {
    match s {
        Side::White => Side::Black,
        Side::Black => Side::White,
    }
}

/// The FEN letter of an occupant: upper case for White, lower case for Black.
pub open spec fn occupant_char(o: Occupant) -> char {
    let c = match o.kind {
        PieceKind::Pawn => 'p',
        PieceKind::Knight => 'n',
        PieceKind::Bishop => 'b',
        PieceKind::Rook => 'r',
        PieceKind::Queen => 'q',
        PieceKind::King => 'k',
    };
    if o.side == Side::White {
        ((c as u8) - 32) as char
    } else {
        c
    }
}

/// The occupant that a FEN letter stands for, if it is one of the twelve letters.
pub open spec fn char_occupant(c: char) -> Option<Occupant> {
    let (kind, side) = if c == 'P' {
        (Some(PieceKind::Pawn), Side::White)
    } else if c == 'N' {
        (Some(PieceKind::Knight), Side::White)
    } else if c == 'B' {
        (Some(PieceKind::Bishop), Side::White)
    } else if c == 'R' {
        (Some(PieceKind::Rook), Side::White)
    } else if c == 'Q' {
        (Some(PieceKind::Queen), Side::White)
    } else if c == 'K' {
        (Some(PieceKind::King), Side::White)
    } else if c == 'p' {
        (Some(PieceKind::Pawn), Side::Black)
    } else if c == 'n' {
        (Some(PieceKind::Knight), Side::Black)
    } else if c == 'b' {
        (Some(PieceKind::Bishop), Side::Black)
    } else if c == 'r' {
        (Some(PieceKind::Rook), Side::Black)
    } else if c == 'q' {
        (Some(PieceKind::Queen), Side::Black)
    } else if c == 'k' {
        (Some(PieceKind::King), Side::Black)
    } else {
        (None, Side::White)
    };
    match kind {
        Some(k) => Some(Occupant { kind: k, side }),
        None => None,
    }
}

/// The letter table is a bijection between the twelve occupants and their letters.
pub proof fn lemma_occupant_char_round_trip(o: Occupant)
    ensures
        char_occupant(occupant_char(o)) == Some(o),
{
}

/// Reads a FEN piece letter.
pub fn occupant_from_char(c: char) -> (r: Option<Occupant>)
    ensures
        r == char_occupant(c),
{
    match c {
        'P' => Some(Occupant { kind: PieceKind::Pawn, side: Side::White }),
        'N' => Some(Occupant { kind: PieceKind::Knight, side: Side::White }),
        'B' => Some(Occupant { kind: PieceKind::Bishop, side: Side::White }),
        'R' => Some(Occupant { kind: PieceKind::Rook, side: Side::White }),
        'Q' => Some(Occupant { kind: PieceKind::Queen, side: Side::White }),
        'K' => Some(Occupant { kind: PieceKind::King, side: Side::White }),
        'p' => Some(Occupant { kind: PieceKind::Pawn, side: Side::Black }),
        'n' => Some(Occupant { kind: PieceKind::Knight, side: Side::Black }),
        'b' => Some(Occupant { kind: PieceKind::Bishop, side: Side::Black }),
        'r' => Some(Occupant { kind: PieceKind::Rook, side: Side::Black }),
        'q' => Some(Occupant { kind: PieceKind::Queen, side: Side::Black }),
        'k' => Some(Occupant { kind: PieceKind::King, side: Side::Black }),
        _ => None,
    }
}

/// Writes the FEN letter of an occupant.
pub fn occupant_to_char(o: Occupant) -> (c: char)
    ensures
        c == occupant_char(o),
{
    match (o.kind, o.side) {
        (PieceKind::Pawn, Side::White) => 'P',
        (PieceKind::Knight, Side::White) => 'N',
        (PieceKind::Bishop, Side::White) => 'B',
        (PieceKind::Rook, Side::White) => 'R',
        (PieceKind::Queen, Side::White) => 'Q',
        (PieceKind::King, Side::White) => 'K',
        (PieceKind::Pawn, Side::Black) => 'p',
        (PieceKind::Knight, Side::Black) => 'n',
        (PieceKind::Bishop, Side::Black) => 'b',
        (PieceKind::Rook, Side::Black) => 'r',
        (PieceKind::Queen, Side::Black) => 'q',
        (PieceKind::King, Side::Black) => 'k',
    }
}

} // verus!
