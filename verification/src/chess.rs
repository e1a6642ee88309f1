pub mod bitboard;
pub mod colour;
pub mod mv;
pub mod piece;
pub mod side;
pub mod square;
pub mod rays;
pub mod magic;
pub mod position;
pub mod bitboarditer;
pub mod attacks;
pub mod pinned;
pub mod move_generator;
pub mod zobrist;
pub mod makemove;
pub mod legal_moves;
pub mod makenull;
pub mod validate;
pub mod fen;
pub mod fen_error;
pub mod set_fen;
pub mod get_fen;
pub mod display;
pub mod perft;
pub mod rehash;
pub mod hash_law;
pub mod parse_law;
pub mod sound_law;
pub mod play_law;
pub mod fen_law;
pub mod display_law;
