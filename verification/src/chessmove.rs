//! Coordinates, colors, piece taxonomy, and the compact board encoding.

use vstd::prelude::*;

verus! {

/// One of the two sides.
#[derive(Clone, Copy, Debug, PartialEq, Eq, Structural)]
pub enum ChessColor {
    White,
    Black,
}

impl ChessColor {
    /// The opposing side.
    pub open spec fn opposite(self) -> ChessColor {
        match self {
            ChessColor::White => ChessColor::Black,
            ChessColor::Black => ChessColor::White,
        }
    }

    /// Returns the opposing side.
    pub fn not(self) -> (r: ChessColor)
        ensures
            r == self.opposite(),
    {
        match self {
            ChessColor::White => ChessColor::Black,
            ChessColor::Black => ChessColor::White,
        }
    }
}

impl Default for ChessColor {
    /// White moves first, so it is the default side.
    fn default() -> (r: ChessColor)
        ensures
            r == ChessColor::White,
    {
        ChessColor::White
    }
}

/// The six kinds of chess piece.
#[derive(Clone, Copy, Debug, PartialEq, Eq, Structural)]
pub enum ChessPieceType {
    King,
    Queen,
    Rook,
    Knight,
    Bishop,
    Pawn,
}

/// A piece: a side together with a kind.
#[derive(Clone, Copy, Debug, PartialEq, Eq, Structural)]
pub struct ChessPiece {
    pub color: ChessColor,
    pub piece_type: ChessPieceType,
}

impl ChessPiece {
    /// Builds a piece from its side and kind.
    pub fn new(color: ChessColor, piece_type: ChessPieceType) -> (r: ChessPiece)
        ensures
            r == (ChessPiece { color, piece_type }),
    {
        ChessPiece { color, piece_type }
    }
}

/// A rank (row) of the board, `One` nearest to White.
#[derive(Clone, Copy, Debug, PartialEq, Eq, Structural)]
pub enum Rank {
    One,
    Two,
    Three,
    Four,
    Five,
    Six,
    Seven,
    Eight,
}

/// A file (column) of the board, `A` on White's left.
#[derive(Clone, Copy, Debug, PartialEq, Eq, Structural)]
pub enum File {
    A,
    B,
    C,
    D,
    E,
    F,
    G,
    H,
}

impl Rank {
    /// The rank as a number, `One` being 0.
    pub open spec fn as_int(self) -> int {
        match self {
            Rank::One => 0,
            Rank::Two => 1,
            Rank::Three => 2,
            Rank::Four => 3,
            Rank::Five => 4,
            Rank::Six => 5,
            Rank::Seven => 6,
            Rank::Eight => 7,
        }
    }

    /// Returns the rank's number, `One` being 0.
    pub fn to_u8(self) -> (r: u8)
        ensures
            r == self.as_int(),
    {
        match self {
            Rank::One => 0,
            Rank::Two => 1,
            Rank::Three => 2,
            Rank::Four => 3,
            Rank::Five => 4,
            Rank::Six => 5,
            Rank::Seven => 6,
            Rank::Eight => 7,
        }
    }
}

/// The rank whose number is `i % 8`.
pub open spec fn rank_of_int(i: int) -> Rank {
    let m = i % 8;
    if m == 0 {
        Rank::One
    } else if m == 1 {
        Rank::Two
    } else if m == 2 {
        Rank::Three
    } else if m == 3 {
        Rank::Four
    } else if m == 4 {
        Rank::Five
    } else if m == 5 {
        Rank::Six
    } else if m == 6 {
        Rank::Seven
    } else {
        Rank::Eight
    }
}

impl File {
    /// The file as a number, `A` being 0.
    pub open spec fn as_int(self) -> int {
        match self {
            File::A => 0,
            File::B => 1,
            File::C => 2,
            File::D => 3,
            File::E => 4,
            File::F => 5,
            File::G => 6,
            File::H => 7,
        }
    }

    /// Returns the file's number, `A` being 0.
    pub fn to_u8(self) -> (r: u8)
        ensures
            r == self.as_int(),
    {
        match self {
            File::A => 0,
            File::B => 1,
            File::C => 2,
            File::D => 3,
            File::E => 4,
            File::F => 5,
            File::G => 6,
            File::H => 7,
        }
    }
}

/// The file whose number is `i % 8`.
pub open spec fn file_of_int(i: int) -> File {
    let m = i % 8;
    if m == 0 {
        File::A
    } else if m == 1 {
        File::B
    } else if m == 2 {
        File::C
    } else if m == 3 {
        File::D
    } else if m == 4 {
        File::E
    } else if m == 5 {
        File::F
    } else if m == 6 {
        File::G
    } else {
        File::H
    }
}

impl From<u8> for Rank {
    /// The rank numbered `value % 8`.
    fn from(value: u8) -> (r: Rank)
        ensures
            r == rank_of_int(value as int),
    {
        let m = value % 8;
        if m == 0 {
            Rank::One
        } else if m == 1 {
            Rank::Two
        } else if m == 2 {
            Rank::Three
        } else if m == 3 {
            Rank::Four
        } else if m == 4 {
            Rank::Five
        } else if m == 5 {
            Rank::Six
        } else if m == 6 {
            Rank::Seven
        } else {
            Rank::Eight
        }
    }
}

impl vstd::std_specs::convert::FromSpecImpl<u8> for Rank {
    open spec fn obeys_from_spec() -> bool {
        true
    }

    open spec fn from_spec(value: u8) -> Rank {
        rank_of_int(value as int)
    }
}

impl From<u8> for File {
    /// The file numbered `value % 8`.
    fn from(value: u8) -> (r: File)
        ensures
            r == file_of_int(value as int),
    {
        let m = value % 8;
        if m == 0 {
            File::A
        } else if m == 1 {
            File::B
        } else if m == 2 {
            File::C
        } else if m == 3 {
            File::D
        } else if m == 4 {
            File::E
        } else if m == 5 {
            File::F
        } else if m == 6 {
            File::G
        } else {
            File::H
        }
    }
}

impl vstd::std_specs::convert::FromSpecImpl<u8> for File {
    open spec fn obeys_from_spec() -> bool {
        true
    }

    open spec fn from_spec(value: u8) -> File {
        file_of_int(value as int)
    }
}

/// A square of the board.
#[derive(Clone, Copy, Debug, PartialEq, Eq, Structural)]
pub struct ChessboardLocation {
    pub rank: Rank,
    pub file: File,
}

impl ChessboardLocation {
    /// The square's position in a flat, rank-major enumeration of the board.
    pub open spec fn index(self) -> int {
        self.rank.as_int() * 8 + self.file.as_int()
    }

    /// Builds the square on rank `rank % 8` and file `file % 8`.
    pub fn new(rank: u8, file: u8) -> (r: ChessboardLocation)
        ensures
            r == (ChessboardLocation {
                rank: rank_of_int(rank as int),
                file: file_of_int(file as int),
            }),
    {
        ChessboardLocation { rank: Rank::from(rank), file: File::from(file) }
    }
}

/// Ranks with the same number are the same rank.
pub proof fn lemma_rank_injective(a: Rank, b: Rank)
    ensures
        a.as_int() == b.as_int() ==> a == b,
{
}

/// Files with the same number are the same file.
pub proof fn lemma_file_injective(a: File, b: File)
    ensures
        a.as_int() == b.as_int() ==> a == b,
{
}

/// Building a rank from an in-range number and reading it back is the
/// identity.
pub proof fn lemma_rank_roundtrip(v: int)
    requires
        0 <= v < 8,
    ensures
        rank_of_int(v).as_int() == v,
{
}

/// Building a file from an in-range number and reading it back is the
/// identity.
pub proof fn lemma_file_roundtrip(v: int)
    requires
        0 <= v < 8,
    ensures
        file_of_int(v).as_int() == v,
{
}

/// A candidate move: source and destination squares.
#[derive(Clone, Copy, Debug, PartialEq, Eq, Structural)]
pub struct ChessMove {
    pub from: ChessboardLocation,
    pub to: ChessboardLocation,
}

/// The 64 squares of a board in rank-major order; `None` is an empty square.
pub type Chessboard = Vec<Option<ChessPiece>>;

/// The compact board encoding: one word per rank, one nibble per square.
pub type CompressedChessboard = Vec<u32>;

/// A board holds exactly one entry per square.
pub open spec fn board_wf(b: Seq<Option<ChessPiece>>) -> bool {
    b.len() == 64
}

/// The contents of the square on rank `r` and file `f`.
pub open spec fn at(b: Seq<Option<ChessPiece>>, r: int, f: int) -> Option<ChessPiece> {
    b[r * 8 + f]
}

/// The 4-bit code of one square: 0 for empty, the kind in the low three
/// bits otherwise, plus 8 for a White piece.
pub open spec fn piece_code(sq: Option<ChessPiece>) -> u32 {
    match sq {
        Option::None => 0u32,
        Option::Some(p) => {
            let kind_code: u32 = match p.piece_type {
                ChessPieceType::King => 1u32,
                ChessPieceType::Queen => 2u32,
                ChessPieceType::Rook => 3u32,
                ChessPieceType::Knight => 4u32,
                ChessPieceType::Bishop => 5u32,
                ChessPieceType::Pawn => 6u32,
            };
            if p.color == ChessColor::White {
                (kind_code + 8) as u32
            } else {
                kind_code
            }
        },
    }
}

/// The value of rank `r`'s word after its first `k` squares have been
/// packed, earlier files in the more significant nibbles.
pub open spec fn row_word(b: Seq<Option<ChessPiece>>, r: int, k: int) -> int
    decreases k,
{
    if k <= 0 {
        0
    } else {
        row_word(b, r, k - 1) * 16 + piece_code(at(b, r, k - 1))
    }
}

/// The compact form of a whole board: one packed word per rank.
pub open spec fn compressed_board(b: Seq<Option<ChessPiece>>) -> Seq<u32> {
    Seq::new(8, |r: int| row_word(b, r, 8) as u32)
}

/// 16 raised to the `k`th power.
pub open spec fn pow16(k: int) -> int
    decreases k,
{
    if k <= 0 {
        1
    } else {
        16 * pow16(k - 1)
    }
}

/// Square codes fit in one nibble.
pub proof fn lemma_piece_code_bound(sq: Option<ChessPiece>)
    ensures
        piece_code(sq) < 16,
{
    match sq {
        Option::None => {},
        Option::Some(p) => {},
    }
}

/// A partially packed rank word stays below 16 to the number of squares
/// packed so far, so packing one more nibble cannot overflow the word.
pub proof fn lemma_row_word_bound(b: Seq<Option<ChessPiece>>, r: int, k: int)
    ensures
        0 <= row_word(b, r, k) < pow16(k) || k <= 0,
    decreases k,
{
    if k > 0 {
        lemma_row_word_bound(b, r, k - 1);
        lemma_piece_code_bound(at(b, r, k - 1));
        if k == 1 {
            assert(row_word(b, r, 0) == 0);
        }
    }
}

/// Returns the 4-bit code of one square.
fn square_code(sq: Option<ChessPiece>) -> (c: u32)
    ensures
        c == piece_code(sq),
        c < 16,
{
    match sq {
        Option::None => 0u32,
        Option::Some(p) => {
            let kind_code: u32 = match p.piece_type {
                ChessPieceType::King => 1u32,
                ChessPieceType::Queen => 2u32,
                ChessPieceType::Rook => 3u32,
                ChessPieceType::Knight => 4u32,
                ChessPieceType::Bishop => 5u32,
                ChessPieceType::Pawn => 6u32,
            };
            if p.color == ChessColor::White {
                kind_code + 8
            } else {
                kind_code
            }
        },
    }
}

/// Packs the board into its compact form: one `u32` per rank, one nibble
/// per square, empty squares encoded as zero.
pub fn compress_chessboard(board: &Chessboard) -> (r: CompressedChessboard)
    requires
        board_wf(board@),
    ensures
        r@ == compressed_board(board@),
{
    let mut arr: Vec<u32> = Vec::new();
    let mut x: usize = 0;
    while x < 8
        invariant
            board_wf(board@),
            x <= 8,
            arr@.len() == x,
            forall|i: int| 0 <= i < x ==> arr@[i] == row_word(board@, i, 8),
        decreases 8 - x,
    {
        let mut word: u32 = 0;
        let mut y: usize = 0;
        while y < 8
            invariant
                board_wf(board@),
                x < 8,
                y <= 8,
                word == row_word(board@, x as int, y as int),
            decreases 8 - y,
        {
            proof {
                lemma_row_word_bound(board@, x as int, y as int);
                assert(pow16(7) == 268435456) by {
                    assert(pow16(0) == 1);
                    assert(pow16(1) == 16);
                    assert(pow16(2) == 256);
                    assert(pow16(3) == 4096);
                    assert(pow16(4) == 65536);
                    assert(pow16(5) == 1048576);
                    assert(pow16(6) == 16777216);
                }
                if (y as int) < 7 {
                    assert(pow16(y as int) <= pow16(7)) by {
                        lemma_pow16_increases(y as int, 7);
                    }
                }
            }
            let code = square_code(board[x * 8 + y]);
            assert((word << 4u32) | code == word * 16 + code) by (bit_vector)
                requires
                    word < 268435456u32,
                    code < 16u32,
            ;
            word = (word << 4u32) | code;
            y = y + 1;
        }
        arr.push(word);
        x = x + 1;
    }
    proof {
        assert(arr@ =~= compressed_board(board@));
    }
    arr
}

/// Packing more squares never shrinks the bound on a rank word.
pub proof fn lemma_pow16_increases(a: int, b: int)
    requires
        a <= b,
    ensures
        pow16(a) <= pow16(b),
    decreases b - a,
{
    if a < b {
        lemma_pow16_increases(a, b - 1);
        lemma_pow16_positive(b - 1);
    }
}

/// Powers of 16 are positive.
pub proof fn lemma_pow16_positive(k: int)
    ensures
        pow16(k) >= 1,
    decreases k,
{
    if k > 0 {
        lemma_pow16_positive(k - 1);
    }
}

} // verus!
