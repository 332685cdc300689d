use std::cell::Cell;

use simple_whisper::beam::{
    beam_search, beam_search_with, beam_step, top_candidates, BeamError, BeamNode, BeamParams,
    BeamSearch, Candidate, ScoringOracle,
};

/// Puts all probability on the next token of `path` after any prefix of it,
/// and spreads the rest thinly.
struct PathOracle {
    path: Vec<usize>,
    vocab: usize,
    calls: Cell<usize>,
}

impl ScoringOracle for PathOracle {
    fn select_window(&mut self, _start: usize, _end: usize) -> Result<(), String> {
        Ok(())
    }

    fn score(&self, batch: &Vec<Vec<usize>>) -> Result<Vec<Vec<i64>>, String> {
        self.calls.set(self.calls.get() + 1);
        Ok(batch
            .iter()
            .map(|seq| {
                let mut row: Vec<i64> = (0..self.vocab).map(|t| -1000 - t as i64).collect();
                let n = seq.len();
                if n < self.path.len() && seq[..] == self.path[..n] {
                    row[self.path[n]] = 0;
                }
                row
            })
            .collect())
    }
}

fn params(width: usize, max_depth: usize, end_token: usize, masked_steps: usize) -> BeamParams {
    BeamParams { width, max_depth, end_token, masked_steps }
}

#[test]
fn search_returns_the_dominant_path() {
    let oracle = PathOracle { path: vec![1, 3, 4, 2], vocab: 5, calls: Cell::new(0) };
    let r = beam_search(&oracle, vec![1], vec![false; 5], params(3, 10, 2, 0));
    assert!(matches!(r, Ok(ref s) if *s == vec![1, 3, 4, 2]));
    assert_eq!(oracle.calls.get(), 3);
}

#[test]
fn greedy_search_returns_the_dominant_path() {
    let oracle = PathOracle { path: vec![0, 4, 4, 1, 3], vocab: 6, calls: Cell::new(0) };
    let r = beam_search(&oracle, vec![0, 4], vec![false; 6], params(1, 3, 3, 0));
    assert!(matches!(r, Ok(ref s) if *s == vec![0, 4, 4, 1, 3]));
}

#[test]
fn depth_limit_returns_the_best_unfinished() {
    let oracle = PathOracle { path: vec![1, 3, 4, 2], vocab: 5, calls: Cell::new(0) };
    let r = beam_search(&oracle, vec![1], vec![false; 5], params(3, 2, 2, 0));
    assert!(matches!(r, Ok(ref s) if *s == vec![1, 3, 4]));
}

#[test]
fn masked_tokens_are_not_chosen_early() {
    let oracle = PathOracle { path: vec![1, 2], vocab: 5, calls: Cell::new(0) };
    let mut special = vec![false; 5];
    special[2] = true;
    let r = beam_search(&oracle, vec![1], special, params(2, 1, 2, 1));
    // Token 2 is excluded at the first step; the best allowed one is 0.
    assert!(matches!(r, Ok(ref s) if *s == vec![1, 0]));
}

struct BrokenOracle {
    wrong_shape: bool,
}

impl ScoringOracle for BrokenOracle {
    fn select_window(&mut self, _start: usize, _end: usize) -> Result<(), String> {
        Ok(())
    }

    fn score(&self, batch: &Vec<Vec<usize>>) -> Result<Vec<Vec<i64>>, String> {
        if self.wrong_shape {
            Ok(vec![vec![0i64; 2]; batch.len()])
        } else {
            Err("backend down".to_string())
        }
    }
}

#[test]
fn oracle_failures_are_reported() {
    let r = beam_search(&BrokenOracle { wrong_shape: false }, vec![1], vec![false; 4], params(2, 5, 3, 0));
    assert!(matches!(r, Err(BeamError::Oracle(ref m)) if m == "backend down"));
    let r = beam_search(&BrokenOracle { wrong_shape: true }, vec![1], vec![false; 4], params(2, 5, 3, 0));
    assert!(matches!(r, Err(BeamError::Shape)));
}

#[test]
fn already_finished_prompt_is_returned() {
    let oracle = PathOracle { path: vec![2], vocab: 3, calls: Cell::new(0) };
    let r = beam_search(&oracle, vec![2], vec![false; 3], params(2, 5, 2, 0));
    assert!(matches!(r, Ok(ref s) if *s == vec![2]));
    assert_eq!(oracle.calls.get(), 0);
}

#[test]
fn top_candidates_are_best_first_and_stable() {
    let c = |parent: usize, token: usize, log_prob: i64| Candidate { parent, token, log_prob };
    let cands = vec![c(0, 0, -5), c(0, 1, -1), c(0, 2, -3), c(1, 0, -1)];
    let top = top_candidates(cands, 3);
    let got: Vec<(usize, usize, i64)> = top.iter().map(|x| (x.parent, x.token, x.log_prob)).collect();
    assert_eq!(got, vec![(0, 1, -1), (1, 0, -1), (0, 2, -3)]);
    assert!(top_candidates(vec![c(0, 0, -1)], 0).is_empty());
}

#[test]
fn one_step_extends_and_sums() {
    let nodes = vec![
        BeamNode { seq: vec![7], log_prob: -2 },
        BeamNode { seq: vec![8], log_prob: 0 },
    ];
    let scores = vec![vec![-1i64, -10, i64::MIN], vec![-5i64, -4, -3]];
    let next = beam_step(&nodes, &scores, &vec![false; 3], false, 2).unwrap();
    let got: Vec<(Vec<usize>, i64)> = next.iter().map(|n| (n.seq.clone(), n.log_prob)).collect();
    assert_eq!(got, vec![(vec![7, 0], -3), (vec![8, 2], -3)]);
    let floor = beam_step(&nodes, &scores, &vec![false; 3], false, 6).unwrap();
    assert_eq!(floor[5].log_prob, i64::MIN);
    assert!(beam_step(&nodes, &vec![vec![0i64, 1, 0], vec![0i64; 3]], &vec![false; 3], false, 2).is_none());
    assert!(beam_step(&nodes, &vec![vec![0i64; 3]], &vec![false; 3], false, 2).is_none());
}

#[test]
fn search_state_steps_by_hand() {
    let mut s = BeamSearch::new(vec![5], params(2, 3, 9, 0), vec![false; 10]);
    assert!(!s.is_done());
    assert_eq!(s.batch(), vec![vec![5]]);
    let mut row = vec![-50i64; 10];
    row[9] = -1;
    row[3] = -2;
    assert!(s.advance(&vec![row]).is_ok());
    assert_eq!(s.best(), vec![5, 9]);
    assert!(s.is_done());
    assert_eq!(s.batch().len(), 2);
}

#[test]
fn closure_oracle_follows_its_path() {
    let path = vec![2usize, 1, 0, 3];
    let oracle = |batch: &Vec<Vec<usize>>| -> Result<Vec<Vec<i64>>, String> {
        Ok(batch
            .iter()
            .map(|seq| {
                let mut row = vec![-7i64; 4];
                if seq.len() < path.len() && seq[..] == path[..seq.len()] {
                    row[path[seq.len()]] = 0;
                }
                row
            })
            .collect())
    };
    let r = beam_search_with(&oracle, vec![2], vec![false; 4], params(2, 3, 3, 1));
    assert!(matches!(r, Ok(ref s) if *s == path));
}
