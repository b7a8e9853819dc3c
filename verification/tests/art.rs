use chess_image::art::PieceArt;
use chess_image::board::{Color, Piece, PieceKind};
use chess_image::raster::Raster;

const KINDS: [PieceKind; 6] = [
    PieceKind::Pawn,
    PieceKind::Knight,
    PieceKind::Bishop,
    PieceKind::Rook,
    PieceKind::Queen,
    PieceKind::King,
];

fn dot(value: u8) -> Raster {
    Raster::from_raw(1, 1, vec![value, value, value, 255]).unwrap()
}

#[test]
fn new_art_has_no_pictures() {
    let art = PieceArt::new();
    for color in [Color::White, Color::Black] {
        for kind in KINDS {
            assert!(!art.contains(Piece::new(kind, color)));
            assert!(art.get(Piece::new(kind, color)).is_none());
        }
    }
}

#[test]
fn insert_gives_one_piece_its_picture() {
    let mut art = PieceArt::new();
    let queen = Piece::new(PieceKind::Queen, Color::Black);
    art.insert(queen, dot(3));
    assert!(art.contains(queen));
    assert_eq!(art.get(queen), Some(&dot(3)));
    for color in [Color::White, Color::Black] {
        for kind in KINDS {
            let piece = Piece::new(kind, color);
            if piece != queen {
                assert!(!art.contains(piece));
            }
        }
    }
}

#[test]
fn insert_replaces_the_picture_a_piece_had() {
    let mut art = PieceArt::new();
    let pawn = Piece::new(PieceKind::Pawn, Color::White);
    art.insert(pawn, dot(1));
    art.insert(pawn, dot(2));
    assert_eq!(art.get(pawn), Some(&dot(2)));
}

#[test]
fn every_piece_has_a_place_of_its_own() {
    let mut art = PieceArt::new();
    let mut value = 0;
    for color in [Color::White, Color::Black] {
        for kind in KINDS {
            art.insert(Piece::new(kind, color), dot(value));
            value += 1;
        }
    }
    let mut value = 0;
    for color in [Color::White, Color::Black] {
        for kind in KINDS {
            assert_eq!(art.get(Piece::new(kind, color)), Some(&dot(value)));
            value += 1;
        }
    }
}
