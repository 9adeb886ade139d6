use vstd::prelude::*;

use crate::gameboard::{
    dir_dx, dir_dy, fall_applied, lock_applied, move_applied, rotation_applied, rotation_possible,
    swap_applied, Action, Direction, GameBoard,
};

verus! {

/// Milliseconds between forced falls at the starting level.
pub const INITIAL_FALL_INTERVAL_MS: u64 = 250;

/// The initial lock-delay grace period, in milliseconds.
pub const INITIAL_LOCK_DELAY_MS: u64 = 375;

/// The lock delay shrinks with the level but never below this reaction
/// window.
pub const MIN_LOCK_DELAY_MS: u64 = 100;

/// The three observable states of a running session.
#[derive(Copy, Clone, Debug, PartialEq, Eq, Structural)]
pub enum SessionPhase {
    Falling,
    Locking,
    GameOver,
}

/// The real-time driver around the board: it turns elapsed wall-clock time
/// and queued input actions into board operations, applying gravity and the
/// lock delay with a level-dependent speed curve. Time is integral
/// milliseconds; the caller measures it and hands in the deltas.
pub struct Session {
    pub board: GameBoard,
    /// Gravity forces a fall each time the fall timer crosses this.
    pub fall_interval_ms: u64,
    /// A blocked piece locks once the lock timer crosses this.
    pub lock_delay_ms: u64,
    pub fall_timer_ms: u64,
    pub lock_timer_ms: u64,
    /// The cleared-lines count at the last level-up, to make each even
    /// count raise the level only once.
    pub hold_lines_cleared: u32,
}

/// The board's cleared-lines count asks for a level-up: it is even and has
/// changed since the last one.
pub open spec fn levelup_due(b: GameBoard, hold_lines_cleared: u32) -> bool {
    b.lines_cleared % 2 == 0 && b.lines_cleared != hold_lines_cleared
}

impl Session {
    pub open spec fn wf(self) -> bool {
        &&& self.board.wf()
        &&& self.fall_interval_ms <= INITIAL_FALL_INTERVAL_MS
        &&& self.lock_delay_ms <= INITIAL_LOCK_DELAY_MS
    }

    /// Which state the machine is in: terminal once the board reports game
    /// over, locking while the lock-delay countdown has begun, falling
    /// otherwise.
    pub open spec fn phase(self) -> SessionPhase {
        if self.board.game_over {
            SessionPhase::GameOver
        } else if self.lock_timer_ms > 0 {
            SessionPhase::Locking
        } else {
            SessionPhase::Falling
        }
    }

    /// The new lock delay after a level-up: nine tenths of the old one,
    /// clamped to the minimum reaction window.
    pub open spec fn shrunk_lock_delay(self) -> int {
        if self.lock_delay_ms * 9 / 10 < MIN_LOCK_DELAY_MS {
            MIN_LOCK_DELAY_MS as int
        } else {
            self.lock_delay_ms * 9 / 10
        }
    }

    /// How one `tick` call relates the pre-state `self` to the post-state
    /// `post`. Below the fall interval only the timers accumulate. On
    /// crossing it, gravity either drops the piece (free fall again, both
    /// timers restart) or, if the piece is blocked, runs the lock-delay
    /// countdown; once that crosses its threshold the piece locks, and a
    /// new even cleared-lines count raises the level and tightens the
    /// speed curve.
    pub open spec fn tick_rel(self, post: Session, elapsed_ms: u64) -> bool {
        let ft = self.fall_timer_ms + elapsed_ms;
        let lt = self.lock_timer_ms + elapsed_ms;
        let can_fall = self.board.piece_fits(self.board.current_piece, 0, -1);
        let crossed = ft >= self.fall_interval_ms;
        &&& (!crossed ==> post == (Session {
            fall_timer_ms: ft as u64,
            lock_timer_ms: lt as u64,
            ..self
        }))
        &&& (crossed && can_fall ==> fall_applied(self.board, post.board) && post == (Session {
            board: post.board,
            fall_timer_ms: 0,
            lock_timer_ms: 0,
            ..self
        }))
        &&& (crossed && !can_fall && lt < self.lock_delay_ms ==> post == (Session {
            fall_timer_ms: 0,
            lock_timer_ms: lt as u64,
            ..self
        }))
        &&& (crossed && !can_fall && lt >= self.lock_delay_ms ==> exists|mid: GameBoard|
            {
                &&& #[trigger] lock_applied(self.board, mid)
                &&& (levelup_due(mid, self.hold_lines_cleared) ==> post == (Session {
                    board: (GameBoard { level: (mid.level + 1) as u32, ..mid }),
                    fall_interval_ms: (self.fall_interval_ms * 4 / 5) as u64,
                    lock_delay_ms: self.shrunk_lock_delay() as u64,
                    fall_timer_ms: 0,
                    lock_timer_ms: 0,
                    hold_lines_cleared: mid.lines_cleared,
                    ..self
                }))
                &&& (!levelup_due(mid, self.hold_lines_cleared) ==> post == (Session {
                    board: mid,
                    fall_timer_ms: 0,
                    lock_timer_ms: 0,
                    ..self
                }))
            })
    }

    /// Start a session: a fresh board from the seed and starting level, and
    /// the initial speed curve.
    pub fn new(seed: u64, level: u32) -> (r: Session)
        ensures
            r.wf(),
            r.board.score == 0,
            r.board.level == level,
            r.board.lines_cleared == 0,
            r.board.game_over == false,
            r.board.can_swap == true,
            r.fall_interval_ms == INITIAL_FALL_INTERVAL_MS,
            r.lock_delay_ms == INITIAL_LOCK_DELAY_MS,
            r.fall_timer_ms == 0,
            r.lock_timer_ms == 0,
            r.hold_lines_cleared == 0,
            r.phase() is Falling,
    {
        Session {
            board: GameBoard::new(seed, level),
            fall_interval_ms: INITIAL_FALL_INTERVAL_MS,
            lock_delay_ms: INITIAL_LOCK_DELAY_MS,
            fall_timer_ms: 0,
            lock_timer_ms: 0,
            hold_lines_cleared: 0,
        }
    }

    /// Apply one queued input action. A failed board operation changes
    /// nothing. A successful hard drop arms an immediate lock: both timers
    /// jump to their thresholds. Any other successful action cancels an
    /// in-progress lock-delay countdown - the piece is not settled yet.
    pub fn handle_action(&mut self, action: Action)
        requires
            old(self).wf(),
            !old(self).board.game_over,
            action matches Action::Move(d) && (d is Bottom || d is Top) ==> old(self).board.score
                + 44 <= u32::MAX,
        ensures
            final(self).wf(),
            final(self).board.level == old(self).board.level,
            final(self).fall_interval_ms == old(self).fall_interval_ms,
            final(self).lock_delay_ms == old(self).lock_delay_ms,
            final(self).hold_lines_cleared == old(self).hold_lines_cleared,
            match action {
                Action::Move(d) => {
                    &&& !old(self).board.piece_fits(
                        old(self).board.current_piece,
                        dir_dx(d),
                        dir_dy(d),
                    ) ==> *final(self) == *old(self)
                    &&& old(self).board.piece_fits(
                        old(self).board.current_piece,
                        dir_dx(d),
                        dir_dy(d),
                    ) ==> {
                        &&& move_applied(old(self).board, final(self).board, d)
                        &&& (d is Top ==> final(self).lock_timer_ms == old(self).lock_delay_ms
                            && final(self).fall_timer_ms == old(self).fall_interval_ms)
                        &&& (!(d is Top) ==> final(self).lock_timer_ms == 0 && final(self).fall_timer_ms == old(self).fall_timer_ms)
                    }
                },
                Action::Rotate => {
                    &&& !rotation_possible(old(self).board) ==> *final(self) == *old(self)
                    &&& rotation_possible(old(self).board) ==> rotation_applied(
                        old(self).board,
                        final(self).board,
                    ) && final(self).lock_timer_ms == 0 && final(self).fall_timer_ms == old(
                        self,
                    ).fall_timer_ms
                },
                Action::Hold => {
                    &&& !old(self).board.can_swap ==> *final(self) == *old(self)
                    &&& old(self).board.can_swap ==> swap_applied(
                        old(self).board,
                        final(self).board,
                    ) && final(self).lock_timer_ms == 0 && final(self).fall_timer_ms == old(
                        self,
                    ).fall_timer_ms
                },
            },
    {
        match action {
            Action::Move(d) => {
                match self.board.try_move(d) {
                    Ok(_) => {
                        match d {
                            Direction::Top => {
                                self.lock_timer_ms = self.lock_delay_ms;
                                self.fall_timer_ms = self.fall_interval_ms;
                            },
                            _ => {
                                self.lock_timer_ms = 0;
                            },
                        }
                    },
                    Err(_) => {},
                }
            },
            Action::Rotate => {
                match self.board.try_rotate() {
                    Ok(_) => {
                        self.lock_timer_ms = 0;
                    },
                    Err(_) => {},
                }
            },
            Action::Hold => {
                match self.board.try_swap() {
                    Ok(_) => {
                        self.lock_timer_ms = 0;
                    },
                    Err(_) => {},
                }
            },
        }
    }

    /// Advance the clock by `elapsed_ms`. When the fall timer crosses the
    /// fall interval, gravity attempts a fall: success puts the piece back
    /// in free fall (both timers restart); failure runs the lock-delay
    /// countdown, and once that crosses its threshold the piece locks
    /// unconditionally. A lock that brings the cleared-lines count to a
    /// new even value raises the level: the fall interval shrinks to 4/5
    /// and the lock delay to 9/10 of their values, the latter never below
    /// the minimum reaction window. The level never decreases.
    pub fn tick(&mut self, elapsed_ms: u64)
        requires
            old(self).wf(),
            !old(self).board.game_over,
            old(self).fall_timer_ms + elapsed_ms <= u64::MAX,
            old(self).lock_timer_ms + elapsed_ms <= u64::MAX,
            old(self).board.score + 800 * old(self).board.level <= u32::MAX,
            old(self).board.lines_cleared + 22 <= u32::MAX,
            old(self).board.level < u32::MAX,
        ensures
            final(self).wf(),
            final(self).board.level >= old(self).board.level,
            final(self).fall_interval_ms <= old(self).fall_interval_ms,
            old(self).tick_rel(*final(self), elapsed_ms),
    {
        self.fall_timer_ms = self.fall_timer_ms + elapsed_ms;
        self.lock_timer_ms = self.lock_timer_ms + elapsed_ms;
        if self.fall_timer_ms >= self.fall_interval_ms {
            match self.board.try_fall() {
                Ok(_) => {
                    self.lock_timer_ms = 0;
                },
                Err(_) => {
                    if self.lock_timer_ms >= self.lock_delay_ms {
                        self.board.lock_current_piece();
                        let ghost mid_board = self.board;
                        let cleared = self.board.get_lines_cleared();
                        if cleared % 2 == 0 && self.hold_lines_cleared != cleared {
                            let lvl = self.board.get_level();
                            self.board.set_level(lvl + 1);
                            self.fall_interval_ms = self.fall_interval_ms * 4 / 5;
                            let shrunk = self.lock_delay_ms * 9 / 10;
                            self.lock_delay_ms = if shrunk < MIN_LOCK_DELAY_MS {
                                MIN_LOCK_DELAY_MS
                            } else {
                                shrunk
                            };
                            self.hold_lines_cleared = cleared;
                        }
                        self.lock_timer_ms = 0;
                    }
                },
            }
            self.fall_timer_ms = 0;
        }
    }
}

} // verus!
