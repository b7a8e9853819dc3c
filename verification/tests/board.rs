use chess_image::board::{Color, Piece, PieceKind, Position};

fn white(kind: PieceKind) -> Piece {
    Piece::new(kind, Color::White)
}

fn black(kind: PieceKind) -> Piece {
    Piece::new(kind, Color::Black)
}

/// A position in which every square holds a different thing to look for.
fn marked() -> Position {
    let mut position = Position::empty();
    position.set(0, Some(white(PieceKind::Rook)));
    position.set(4, Some(white(PieceKind::King)));
    position.set(7, Some(white(PieceKind::Knight)));
    position.set(12, Some(white(PieceKind::Pawn)));
    position.set(56, Some(black(PieceKind::Rook)));
    position.set(60, Some(black(PieceKind::King)));
    position.set(63, Some(black(PieceKind::Bishop)));
    position
}

#[test]
fn color_knows_which_side_it_is() {
    assert!(Color::White.is_white());
    assert!(!Color::White.is_black());
    assert!(Color::Black.is_black());
    assert!(!Color::Black.is_white());
}

#[test]
fn piece_keeps_kind_and_color() {
    let piece = Piece::new(PieceKind::Queen, Color::Black);
    assert_eq!(piece.kind(), PieceKind::Queen);
    assert_eq!(piece.color(), Color::Black);
    assert_eq!(piece, Piece { kind: PieceKind::Queen, color: Color::Black });
    assert_ne!(piece, Piece::new(PieceKind::Queen, Color::White));
}

#[test]
fn empty_position_has_no_pieces() {
    let position = Position::empty();
    assert!(position.is_empty());
    for index in 0..64 {
        assert_eq!(position.get(index), None);
    }
}

#[test]
fn set_changes_one_square_only() {
    let mut position = Position::empty();
    position.set(27, Some(white(PieceKind::Queen)));
    assert!(!position.is_empty());
    for index in 0..64 {
        let expected = if index == 27 { Some(white(PieceKind::Queen)) } else { None };
        assert_eq!(position.get(index), expected);
    }
    position.set(27, None);
    assert!(position.is_empty());
}

#[test]
fn new_takes_the_squares_as_given() {
    let mut content = [None; 64];
    content[63] = Some(black(PieceKind::Pawn));
    let position = Position::new(content);
    assert_eq!(position.get(63), Some(black(PieceKind::Pawn)));
    assert_eq!(position.get(0), None);
    assert_eq!(position.content, content);
}

#[test]
fn display_ranks_has_eight_ranks_of_eight() {
    for perspective in [Color::White, Color::Black] {
        let ranks = marked().display_ranks(perspective);
        assert_eq!(ranks.len(), 8);
        for rank in &ranks {
            assert_eq!(rank.len(), 8);
        }
    }
}

#[test]
fn white_sees_the_stored_ranks_in_reverse() {
    let ranks = marked().display_ranks(Color::White);
    // The first stored rank is drawn at the bottom, its files in order.
    assert_eq!(ranks[7][0], Some(white(PieceKind::Rook)));
    assert_eq!(ranks[7][4], Some(white(PieceKind::King)));
    assert_eq!(ranks[7][7], Some(white(PieceKind::Knight)));
    assert_eq!(ranks[6][4], Some(white(PieceKind::Pawn)));
    // The last stored rank is drawn at the top.
    assert_eq!(ranks[0][0], Some(black(PieceKind::Rook)));
    assert_eq!(ranks[0][4], Some(black(PieceKind::King)));
    assert_eq!(ranks[0][7], Some(black(PieceKind::Bishop)));
    let pieces: usize = ranks.iter().map(|rank| rank.iter().flatten().count()).sum();
    assert_eq!(pieces, 7);
}

#[test]
fn black_sees_ranks_in_order_and_files_mirrored() {
    let ranks = marked().display_ranks(Color::Black);
    assert_eq!(ranks[0][7], Some(white(PieceKind::Rook)));
    assert_eq!(ranks[0][3], Some(white(PieceKind::King)));
    assert_eq!(ranks[0][0], Some(white(PieceKind::Knight)));
    assert_eq!(ranks[1][3], Some(white(PieceKind::Pawn)));
    assert_eq!(ranks[7][7], Some(black(PieceKind::Rook)));
    assert_eq!(ranks[7][3], Some(black(PieceKind::King)));
    assert_eq!(ranks[7][0], Some(black(PieceKind::Bishop)));
    let pieces: usize = ranks.iter().map(|rank| rank.iter().flatten().count()).sum();
    assert_eq!(pieces, 7);
}

#[test]
fn the_two_views_are_half_turns_of_each_other() {
    let mut position = Position::empty();
    let kinds = [
        PieceKind::Pawn,
        PieceKind::Knight,
        PieceKind::Bishop,
        PieceKind::Rook,
        PieceKind::Queen,
        PieceKind::King,
    ];
    for index in 0..64 {
        if index % 3 != 0 {
            let color = if index % 2 == 0 { Color::White } else { Color::Black };
            position.set(index, Some(Piece::new(kinds[index % 6], color)));
        }
    }
    let seen = position.display_ranks(Color::White);
    let turned = position.display_ranks(Color::Black);
    for rank in 0..8 {
        for file in 0..8 {
            assert_eq!(seen[rank][file], turned[7 - rank][7 - file]);
            assert_eq!(seen[rank][file], position.get(8 * (7 - rank) + file));
            assert_eq!(turned[rank][file], position.get(8 * rank + 7 - file));
        }
    }
}

#[test]
fn display_ranks_leaves_the_position_alone() {
    let position = marked();
    let before = position;
    let _ = position.display_ranks(Color::Black);
    assert_eq!(position, before);
}

#[test]
fn pieces_lists_each_occupied_square_in_stored_order() {
    assert_eq!(Position::empty().pieces(), Vec::new());
    assert_eq!(
        marked().pieces(),
        vec![
            white(PieceKind::Rook),
            white(PieceKind::King),
            white(PieceKind::Knight),
            white(PieceKind::Pawn),
            black(PieceKind::Rook),
            black(PieceKind::King),
            black(PieceKind::Bishop),
        ]
    );
}

#[test]
fn pieces_lists_a_piece_once_for_each_square_it_stands_on() {
    let mut position = Position::empty();
    position.set(8, Some(white(PieceKind::Pawn)));
    position.set(9, Some(white(PieceKind::Pawn)));
    position.set(63, Some(white(PieceKind::Pawn)));
    assert_eq!(position.pieces(), vec![white(PieceKind::Pawn); 3]);
}
