//! A fixed-depth chess engine core: a board kept from the mover's point of
//! view, legal move generation, incremental evaluation and game-tree search.

pub mod chess_board;
pub mod game;
pub mod move_generator;
pub mod rules;
pub mod searcher;
pub mod uci_interface;
