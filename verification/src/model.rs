//! The game session: a board, the player to move, and the messages that
//! change them.

use crate::board::Board;
use crate::player::Player;
use crate::pos::Pos;
use crate::rules::{first_winner, game_result, winning_lines, winning_lines_table, GameResult};
use vstd::prelude::*;
use vstd::string::*;

verus! {

/// An instruction to a game.
#[derive(Clone, Copy, Debug, PartialEq, Eq, Structural)]
pub enum Msg {
    /// The player to move takes the cell.
    Play(Pos),
    /// The game starts over.
    Restart,
}

/// What a game is, mathematically: the taken cells and the player who
/// moves next.
pub struct ModelView {
    pub next_up: Player,
    pub board: Map<Pos, Player>,
}

impl ModelView {
    /// A game before the first move: no cell is taken and `X` moves.
    pub open spec fn initial() -> ModelView {
        ModelView { next_up: Player::X, board: Map::empty() }
    }

    /// The game after the player to move has taken `pos`.
    ///
    /// The move is not judged: a taken cell changes hands, and a
    /// finished game goes on.
    pub open spec fn play(self, pos: Pos) -> ModelView {
        ModelView { next_up: self.next_up.other(), board: self.board.insert(pos, self.next_up) }
    }

    /// The game after one message.
    pub open spec fn step(self, msg: Msg) -> ModelView {
        match msg {
            Msg::Play(pos) => self.play(pos),
            Msg::Restart => ModelView::initial(),
        }
    }

    /// The game after the messages `msgs`, in their order.
    pub open spec fn run(self, msgs: Seq<Msg>) -> ModelView
        decreases msgs.len(),
    {
        if msgs.len() == 0 {
            self
        } else {
            self.run(msgs.drop_last()).step(msgs.last())
        }
    }

    /// The state of the game.
    pub open spec fn result(self) -> GameResult {
        game_result(self.board)
    }

    /// Whether the game has ended, in a win or in a draw.
    pub open spec fn is_over(self) -> bool {
        self.result() != GameResult::StillPlaying
    }

    /// The status line of the game.
    pub open spec fn message(self) -> Seq<char> {
        match self.result() {
            GameResult::StillPlaying => self.next_up.name_text() + " turn"@,
            GameResult::Win(player) => player.name_text() + " wins!"@,
            GameResult::Draw => "It is a draw!"@,
        }
    }

    /// Whether a move into a cell with the occupant `cell` is legal: the
    /// game is going on and the cell is free.
    pub open spec fn can_play(self, cell: Option<Player>) -> bool {
        self.result() == GameResult::StillPlaying && cell is None
    }
}

/// A game session.
#[derive(Debug)]
pub struct Model {
    next_up: Player,
    board: Board,
}

impl View for Model {
    type V = ModelView;

    closed spec fn view(&self) -> ModelView {
        ModelView { next_up: self.next_up, board: self.board@ }
    }
}

impl Model {
    /// A game has finitely many taken cells.
    pub proof fn lemma_board_finite(&self)
        ensures
            self@.board.dom().finite(),
    {
        self.board.lemma_finite();
    }

    /// A new game: the board is empty and `X` moves first.
    pub fn new() -> (model: Model)
        ensures
            model@ == ModelView::initial(),
    {
        Model { next_up: Player::X, board: Board::new() }
    }

    /// The player who moves next.
    pub fn next_up(&self) -> (player: Player)
        ensures
            player == self@.next_up,
    {
        self.next_up
    }

    /// The board, for reading.
    pub fn board(&self) -> (board: &Board)
        ensures
            board@ == self@.board,
    {
        &self.board
    }

    /// The state of the game, derived from the board at each call.
    ///
    /// The result is a function of the board alone: as long as the
    /// board does not change, every call gives the same answer.
    pub fn get_game_result(&self) -> (result: GameResult)
        ensures
            result == self@.result(),
    {
        let lines = winning_lines_table();
        let mut i: usize = 0;
        while i < 8
            invariant
                i <= 8,
                lines@.len() == winning_lines().len(),
                forall|j: int| 0 <= j < 8 ==> (#[trigger] lines@[j])@ == winning_lines()[j],
                first_winner(self.board@, 0) == first_winner(self.board@, i as int),
            decreases 8 - i,
        {
            let winner = self.board.get_line(&lines[i]).get_winner();
            if let Some(player) = winner {
                return GameResult::Win(player);
            }
            i += 1;
        }
        if self.board.any_more_moves() {
            GameResult::StillPlaying
        } else {
            GameResult::Draw
        }
    }

    /// The status line: whose turn it is, who has won, or that the game
    /// is a draw.
    pub fn get_message(&self) -> (text: String)
        ensures
            text@ == self@.message(),
    {
        match self.get_game_result() {
            GameResult::StillPlaying => String::from_str(self.next_up.name()).concat(" turn"),
            GameResult::Win(player) => String::from_str(player.name()).concat(" wins!"),
            GameResult::Draw => "It is a draw!".to_string(),
        }
    }

    /// Applies one message, then reports the end of the game.
    ///
    /// `Play` gives the cell to the player to move and passes the turn;
    /// it does not ask whether the move is legal (`can_play` does).
    /// `Restart` replaces the game by a new one. If the game is over
    /// after that, `game_over` is called with the status line.
    ///
    /// `game_over` is consumed, so it runs at most once. The contract
    /// lets the call happen only when the game is over and only with
    /// the status line, and it promises the effect of that call.
    pub fn update(&mut self, msg: Msg, game_over: impl FnOnce(String) -> ())
        requires
            old(self)@.step(msg).is_over() ==> forall|text: String|
                text@ == old(self)@.step(msg).message() ==> #[trigger] game_over.requires((text,)),
        ensures
            final(self)@ == old(self)@.step(msg),
            final(self)@.is_over() ==> exists|text: String|
                text@ == final(self)@.message() && #[trigger] game_over.ensures((text,), ()),
    {
        match msg {
            Msg::Play(pos) => {
                let player = self.next_up;
                self.board.set(pos, player);
                self.next_up.swap();
            },
            Msg::Restart => {
                *self = Model::new();
            },
        }
        match self.get_game_result() {
            GameResult::StillPlaying => (),
            _ => {
                let text = self.get_message();
                game_over(text)
            },
        }
    }

    /// Whether the player to move may take a cell whose occupant is
    /// `cell`: the game is going on and the cell is free.
    pub fn can_play(&self, cell: Option<&Player>) -> (legal: bool)
        ensures
            legal == self@.can_play(
                match cell {
                    Some(player) => Some(*player),
                    None => None,
                },
            ),
    {
        match (self.get_game_result(), cell) {
            (GameResult::StillPlaying, None) => true,
            _ => false,
        }
    }
}

} // verus!
