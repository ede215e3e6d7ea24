use referee::game::{ActorError, Game, GameError, Player};
use referee::games::dilemma::{Decision, PrisonerDilemma};

struct TitForTatPlayer {
    started: bool,
    next_choice: String,
}

impl TitForTatPlayer {
    fn new(first_choice: &str) -> Self {
        TitForTatPlayer { started: false, next_choice: first_choice.to_string() }
    }
}

impl Player for TitForTatPlayer {
    fn ask(&mut self) -> Result<String, ActorError> {
        Ok(self.next_choice.clone())
    }

    fn say(&mut self, s: String) -> Result<(), ActorError> {
        if !self.started {
            self.started = true;
        } else {
            self.next_choice = s;
        }
        Ok(())
    }
}

/// Replies with a fixed line every time it is asked; remembers what it was
/// told.
struct FixedPlayer {
    reply: String,
    heard: Vec<String>,
}

impl FixedPlayer {
    fn new(reply: &str) -> Self {
        FixedPlayer { reply: reply.to_string(), heard: Vec::new() }
    }
}

impl Player for FixedPlayer {
    fn ask(&mut self) -> Result<String, ActorError> {
        Ok(self.reply.clone())
    }

    fn say(&mut self, s: String) -> Result<(), ActorError> {
        self.heard.push(s);
        Ok(())
    }
}

/// Fails every exchange with a fixed error.
struct BrokenPlayer {
    error: ActorError,
}

impl Player for BrokenPlayer {
    fn ask(&mut self) -> Result<String, ActorError> {
        Err(self.error)
    }

    fn say(&mut self, _s: String) -> Result<(), ActorError> {
        Err(self.error)
    }
}

#[test]
fn dilemma_with_two_tit_for_tat_players() {
    let mut l = TitForTatPlayer::new("COOPERATE");
    let mut r = TitForTatPlayer::new("DEFECT");
    let d_game = PrisonerDilemma::new(1, 10, 5);

    let res = d_game.round(&mut l, &mut r, 2);

    assert!(res.is_ok(), "unexpected error: {:?}", res.err().unwrap());
    let res = res.unwrap();
    assert_eq!(10, res.0);
    assert_eq!(10, res.1);
}

#[test]
fn dilemma_invalid_output() {
    let mut l = TitForTatPlayer::new("Sth");
    let mut r = TitForTatPlayer::new("DEFECT");
    let d_game = PrisonerDilemma::new(1, 10, 5);

    let res = d_game.round(&mut l, &mut r, 2);
    assert!(res.is_err());
    assert!(matches!(res.err().unwrap(), GameError::ErrorLeft(_)));
}

#[test]
fn dilemma_payoff_matrix() {
    let g = PrisonerDilemma::new(1, 10, 5);
    assert_eq!((5, 5), g.payoff(Decision::Cooperate, Decision::Cooperate));
    assert_eq!((1, 1), g.payoff(Decision::Defect, Decision::Defect));
    assert_eq!((0, 10), g.payoff(Decision::Cooperate, Decision::Defect));
    assert_eq!((10, 0), g.payoff(Decision::Defect, Decision::Cooperate));
}

#[test]
fn dilemma_total_is_sum_of_iterations() {
    // Left always cooperates, right always defects: every iteration scores
    // (0, 10), so three iterations total (0, 30).
    let mut l = FixedPlayer::new("COOPERATE");
    let mut r = FixedPlayer::new("DEFECT");
    let g = PrisonerDilemma::new(1, 10, 5);

    let res = g.round(&mut l, &mut r, 3).unwrap();
    assert_eq!((0, 30), res);

    // Each actor was told the iteration count, then the opponent's decision
    // after every iteration.
    assert_eq!(vec!["3", "DEFECT", "DEFECT", "DEFECT"], l.heard);
    assert_eq!(vec!["3", "COOPERATE", "COOPERATE", "COOPERATE"], r.heard);
}

#[test]
fn dilemma_invalid_right_side_attributed() {
    let mut l = FixedPlayer::new("COOPERATE");
    let mut r = FixedPlayer::new("Nonsense");
    let g = PrisonerDilemma::new(1, 10, 5);

    let res = g.round(&mut l, &mut r, 2);
    assert!(matches!(res, Err(GameError::ErrorRight(ActorError::ProtocolViolation))));
    // The left side never got past setup: no decision was echoed to it.
    assert_eq!(vec!["2"], l.heard);
}

#[test]
fn dilemma_decision_parsing() {
    assert_eq!(Ok(Decision::Cooperate), Decision::from_str("COOPERATE"));
    assert_eq!(Ok(Decision::Defect), Decision::from_str("DEFECT"));
    assert_eq!(Err(ActorError::ProtocolViolation), Decision::from_str("cooperate"));
    assert_eq!(Err(ActorError::ProtocolViolation), Decision::from_str("DEFECTED"));
    assert_eq!(Err(ActorError::ProtocolViolation), Decision::from_str(""));
    assert_eq!("COOPERATE", Decision::Cooperate.to_str());
    assert_eq!("DEFECT", Decision::Defect.to_str());
}

#[test]
fn dilemma_read_timeout_attributed() {
    let mut l = FixedPlayer::new("COOPERATE");
    let mut r = BrokenPlayer { error: ActorError::ReadTimeout };
    let g = PrisonerDilemma::new(1, 10, 5);

    let res = g.round(&mut l, &mut r, 1);
    assert_eq!(Err(GameError::ErrorRight(ActorError::ReadTimeout)), res);
}

#[test]
fn dilemma_write_failure_attributed() {
    let mut l = BrokenPlayer { error: ActorError::WriteFailed };
    let mut r = FixedPlayer::new("DEFECT");
    let g = PrisonerDilemma::new(1, 10, 5);

    // Setup already fails: the left actor cannot be told the iteration count.
    let res = g.round(&mut l, &mut r, 1);
    assert_eq!(Err(GameError::ErrorLeft(ActorError::WriteFailed)), res);
}

/// Accepts everything it is told but has closed its output.
struct EofPlayer {}

impl Player for EofPlayer {
    fn ask(&mut self) -> Result<String, ActorError> {
        Err(ActorError::UnexpectedEof)
    }

    fn say(&mut self, _s: String) -> Result<(), ActorError> {
        Ok(())
    }
}

#[test]
fn dilemma_eof_attributed() {
    let mut l = EofPlayer {};
    let mut r = FixedPlayer::new("DEFECT");
    let g = PrisonerDilemma::new(1, 10, 5);

    // Setup succeeds; the first ask of the first iteration hits the closed
    // stream and is attributed to the left side.
    let res = g.round(&mut l, &mut r, 1);
    assert_eq!(Err(GameError::ErrorLeft(ActorError::UnexpectedEof)), res);
}

#[test]
fn dilemma_zero_iterations() {
    let mut l = FixedPlayer::new("COOPERATE");
    let mut r = FixedPlayer::new("DEFECT");
    let g = PrisonerDilemma::new(1, 10, 5);

    let res = g.round(&mut l, &mut r, 0).unwrap();
    assert_eq!((0, 0), res);
}
