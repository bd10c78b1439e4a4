//! The stack of game-flow stages and its transitions.

use vstd::prelude::*;

verus! {

/// What the active stage asks of the stack.
#[derive(Clone, Copy, Debug, PartialEq, Eq, Structural)]
pub enum StageAction {
    GameQuit,
    StartGame,
    EndGame,
    GameOver,
}

/// The stages a game goes through.
#[derive(Clone, Copy, Debug, PartialEq, Eq, Structural)]
pub enum Stage {
    MainMenu,
    Playing,
    GameOver,
}

/// The stages entered and not yet left; the last one is active.
pub struct StageStack {
    pub stack: Vec<Stage>,
}

/// The stack after the active stage's request: quitting empties it,
/// starting a game enters play, ending leaves the active stage, and a lost
/// game puts the game-over stage in place of the active one.
pub open spec fn after_action(s: Seq<Stage>, action: Option<StageAction>) -> Seq<Stage> {
    match action {
        Some(StageAction::GameQuit) => Seq::empty(),
        Some(StageAction::StartGame) => s.push(Stage::Playing),
        Some(StageAction::EndGame) => if s.len() > 0 {
            s.drop_last()
        } else {
            s
        },
        Some(StageAction::GameOver) => if s.len() > 0 {
            s.drop_last().push(Stage::GameOver)
        } else {
            s.push(Stage::GameOver)
        },
        None => s,
    }
}

impl StageStack {
    pub fn new() -> (r: StageStack)
        ensures
            r.stack@.len() == 0,
    {
        StageStack { stack: Vec::new() }
    }

    pub fn with_stages(self, stack: Vec<Stage>) -> (r: StageStack)
        ensures
            r.stack@ == stack@,
    {
        StageStack { stack }
    }

    pub fn is_empty(&self) -> (r: bool)
        ensures
            r == (self.stack@.len() == 0),
    {
        self.stack.len() == 0
    }

    /// The active stage, if any.
    pub fn top(&self) -> (r: Option<Stage>)
        ensures
            self.stack@.len() == 0 ==> r.is_none(),
            self.stack@.len() > 0 ==> r == Some(self.stack@.last()),
    {
        let n = self.stack.len();
        if n == 0 {
            None
        } else {
            Some(self.stack[n - 1])
        }
    }

    /// Applies the active stage's request.
    pub fn update(&mut self, action: Option<StageAction>)
        ensures
            final(self).stack@ == after_action(old(self).stack@, action),
    {
        match action {
            Some(StageAction::GameQuit) => {
                self.stack.clear();
            },
            Some(StageAction::StartGame) => {
                self.stack.push(Stage::Playing);
            },
            Some(StageAction::EndGame) => {
                self.stack.pop();
            },
            Some(StageAction::GameOver) => {
                self.stack.pop();
                self.stack.push(Stage::GameOver);
            },
            None => {},
        }
    }
}

} // verus!
