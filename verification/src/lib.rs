//! Minesweeper for the terminal: the board engine (the grid of squares, mine
//! placement, counts of neighbouring mines, the flood reveal, the cycle of
//! markers and the win condition) and the game around it (where the board
//! stands on the terminal, the clock, and what keys and clicks do).

pub mod board;
pub mod cell;
pub mod chance;
pub mod counting;
pub mod dimension;
pub mod frame;
pub mod game;
pub mod grid;
pub mod laws;
pub mod position;
pub mod text;
