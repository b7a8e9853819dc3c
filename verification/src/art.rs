//! The piece artwork that a rendering draws from: for each piece, the
//! picture that was found for it, if one was.

use crate::board::{Color, Piece, PieceKind};
use crate::raster::{Image, Raster};
use vstd::prelude::*;

verus! {

/// The place of a piece among the twelve there are: the white pieces first,
/// each side from pawn to king.
pub open spec fn slot_of(piece: Piece) -> int {
    let side: int = match piece.color {
        Color::White => 0,
        Color::Black => 6,
    };
    let kind: int = match piece.kind {
        PieceKind::Pawn => 0,
        PieceKind::Knight => 1,
        PieceKind::Bishop => 2,
        PieceKind::Rook => 3,
        PieceKind::Queen => 4,
        PieceKind::King => 5,
    };
    side + kind
}

/// No two pieces share a place.
pub proof fn lemma_slots_differ(first: Piece, second: Piece)
    ensures
        0 <= slot_of(first) < 12,
        slot_of(first) == slot_of(second) <==> first == second,
{
}

/// Pictures of pieces, at most one for each piece.
#[derive(PartialEq, Eq, Debug)]
pub struct PieceArt {
    slots: Vec<Option<Raster>>,
}

impl View for PieceArt {
    type V = Map<Piece, Image>;

    closed spec fn view(&self) -> Map<Piece, Image> {
        Map::new(
            |piece: Piece| self.slots@[slot_of(piece)] is Some,
            |piece: Piece| self.slots@[slot_of(piece)]->0@,
        )
    }
}

impl PieceArt {
    #[verifier::type_invariant]
    spec fn twelve(self) -> bool {
        self.slots@.len() == 12
    }

    /// Artwork with no picture for any piece.
    pub fn new() -> (art: PieceArt)
        ensures
            art@ == Map::<Piece, Image>::empty(),
    {
        let mut slots: Vec<Option<Raster>> = Vec::new();
        let mut count: usize = 0;
        while count < 12
            invariant
                count <= 12,
                slots@.len() == count,
                forall|i: int| 0 <= i < count ==> slots@[i] is None,
            decreases 12 - count,
        {
            slots.push(None);
            count += 1;
        }
        let art = PieceArt { slots };
        proof {
            assert forall|piece: Piece| !art@.contains_key(piece) by {
                lemma_slots_differ(piece, piece);
            }
        }
        art
    }

    /// Makes `picture` the picture of `piece`, in place of the one it had if
    /// it had one. The pictures of the other pieces stay.
    pub fn insert(&mut self, piece: Piece, picture: Raster)
        ensures
            final(self)@ == old(self)@.insert(piece, picture@),
    {
        proof {
            use_type_invariant(&*self);
        }
        let slot = Self::slot(piece);
        let ghost shown = picture@;
        self.slots[slot] = Some(picture);
        proof {
            assert forall|other: Piece|
                self@.contains_key(other) == old(self)@.insert(piece, shown).contains_key(
                    other,
                ) && (self@.contains_key(other) ==> self@[other] == old(self)@.insert(
                    piece,
                    shown,
                )[other]) by {
                lemma_slots_differ(other, piece);
            }
        }
    }

    /// The picture of `piece`, if there is one.
    pub fn get(&self, piece: Piece) -> (picture: Option<&Raster>)
        ensures
            picture is Some <==> self@.contains_key(piece),
            picture matches Some(found) ==> found@ == self@[piece],
    {
        proof {
            use_type_invariant(self);
        }
        self.slots[Self::slot(piece)].as_ref()
    }

    /// Whether there is a picture of `piece`.
    pub fn contains(&self, piece: Piece) -> (found: bool)
        ensures
            found == self@.contains_key(piece),
    {
        self.get(piece).is_some()
    }

    /// The place of `piece` among the twelve.
    fn slot(piece: Piece) -> (slot: usize)
        ensures
            slot == slot_of(piece),
            slot < 12,
    {
        let side: usize = match piece.color {
            Color::White => 0,
            Color::Black => 6,
        };
        let kind: usize = match piece.kind {
            PieceKind::Pawn => 0,
            PieceKind::Knight => 1,
            PieceKind::Bishop => 2,
            PieceKind::Rook => 3,
            PieceKind::Queen => 4,
            PieceKind::King => 5,
        };
        side + kind
    }
}

} // verus!
