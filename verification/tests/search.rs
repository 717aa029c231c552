use cubineer::json::Json;
use cubineer::number::Real;
use cubineer::search::config::{SearchConfig, Strategy};
use cubineer::search::mcts::Scores;
use cubineer::search::node::{Node, Outcome, Status, ROOT};
use cubineer::search::state::SearchState;

fn ranked(value: f64) -> Real {
    Real::from_bits(value.to_bits())
}

fn number(value: Real) -> f64 {
    f64::from_bits(value.to_bits())
}

fn outcome(status: Status, speedup: Option<f64>) -> Outcome {
    Outcome {
        status,
        speedup: speedup.map(ranked),
        log: ranked(speedup.unwrap_or(0.0).max(0.1).ln()),
        error_context: None,
    }
}

fn success(speedup: f64) -> Outcome {
    outcome(Status::Success, Some(speedup))
}

fn failure() -> Outcome {
    outcome(Status::Failed, None)
}

fn scores(tree: &SearchState) -> Scores {
    let mut scores = Scores { uct: Vec::new(), virtual_uct: Vec::new(), width: Vec::new() };
    let constant = tree.config.exploration_constant.map(number).unwrap_or(1.414);
    let alpha = tree.config.pw_alpha.map(number).unwrap_or(0.5);
    for node in &tree.nodes {
        let visits = node.visits as f64;
        let total: f64 =
            node.credits.iter().map(|id| number(tree.nodes[*id].mcts_reward())).sum();
        let mean = total / visits;
        let above = node.parent.map(|id| tree.nodes[id].visits).unwrap_or(0) as f64;
        let explored = if above > 0.0 { constant * (above.ln() / visits).sqrt() } else { 0.0 };
        scores.uct.push(ranked(if node.visits == 0 { 0.0 } else { mean + explored }));
        let share = (visits / (node.children.len() as f64 + 1.0)).max(1.0);
        let next = mean + constant * (visits.ln() / share).sqrt();
        scores.virtual_uct.push(ranked(if node.visits == 0 { 0.0 } else { next }));
        let factor = if node.id == ROOT {
            tree.config.pw_c_root.map(number).unwrap_or(2.0)
        } else if node.outcome.status == Status::Failed {
            tree.config.pw_c_repair.map(number).unwrap_or(2.0)
        } else {
            tree.config.pw_c_optimize.map(number).unwrap_or(3.0)
        };
        scores.width.push(ranked(factor * visits.powf(alpha)));
    }
    scores
}

fn gain(tree: &SearchState) -> Real {
    let history = &tree.speedup_history;
    if history.len() < 2 {
        return ranked(0.0);
    }
    ranked(number(history[history.len() - 1]) - number(history[history.len() - 2]))
}

fn started(strategy: Strategy) -> SearchState {
    SearchState::new(strategy, SearchConfig::default()).unwrap()
}

#[test]
fn failed_repairs_prune_only_after_the_whole_batch_is_attached() {
    let mut tree = started(Strategy::Mcts);
    let parent = tree.record_batch(None, vec![failure()]).unwrap()[0];
    tree.record_batch(Some(parent), vec![failure(), failure()]).unwrap();
    assert!(!tree.nodes[parent].terminal);
    tree.record_batch(Some(parent), vec![failure(), success(1.2)]).unwrap();
    assert!(!tree.nodes[parent].terminal);
    assert_eq!((tree.nodes[ROOT].visits, tree.nodes[parent].visits), (5, 5));
}

#[test]
fn three_failed_repairs_prune_and_allow_a_root_restart() {
    let mut tree = started(Strategy::Mcts);
    let parent = tree.record_batch(None, vec![failure()]).unwrap()[0];
    tree.record_batch(Some(parent), vec![failure(), failure(), failure()]).unwrap();
    assert!(tree.nodes[parent].terminal);
    let table = scores(&tree);
    assert_eq!(tree.select(&table), None);
    assert!(tree.nodes[ROOT].terminal);
    tree.record_batch(None, vec![success(2.0)]).unwrap();
    assert_eq!(tree.winner(), Some(5));
    assert!(tree.nodes[ROOT].terminal);
}

#[test]
fn mcts_current_best_and_final_winner_have_different_clamping() {
    let mut tree = started(Strategy::Mcts);
    tree.record_batch(None, vec![success(0.02), success(0.08)]).unwrap();
    assert_eq!((tree.current_best, tree.winner()), (Some(1), Some(2)));
}

#[test]
fn greedy_convergence_uses_batch_best_not_global_best() {
    let mut tree = started(Strategy::Greedy);
    tree.record_batch(None, vec![success(2.0)]).unwrap();
    tree.record_batch(Some(1), vec![success(1.5)]).unwrap();
    let history: Vec<f64> = tree.speedup_history.iter().map(|value| number(*value)).collect();
    assert_eq!(
        (tree.should_continue(gain(&tree)), tree.winner(), history),
        (false, Some(1), vec![2.0, 1.5])
    );
}

#[test]
fn invalid_batch_is_atomic() {
    let mut tree = started(Strategy::Mcts);
    let error = tree.record_batch(None, vec![success(2.0), success(f64::NAN)]);
    assert_eq!(error, Err("speedup must be finite".to_string()));
    assert_eq!(tree.nodes.len(), 1);
    assert_eq!(tree.nodes[ROOT].visits, 0);
    assert_eq!(tree.nodes[ROOT].children, Vec::<usize>::new());
    assert_eq!(tree.current_iteration, 0);
    assert_eq!(tree.current_best, None);
    assert_eq!(tree.consecutive_failures, 0);
}

#[test]
fn outcomes_that_cannot_be_recorded_are_refused() {
    let pending = outcome(Status::Pending, None);
    assert_eq!(pending.validate(), Err("cannot commit a pending outcome".to_string()));
    let unmeasured = outcome(Status::Success, None);
    assert_eq!(unmeasured.validate(), Err("success requires a measured speedup".to_string()));
    let mut odd = failure();
    odd.error_context = Some(Json::Bool(true));
    assert_eq!(odd.validate(), Err("error_context must be an object".to_string()));
    odd.error_context =
        Some(Json::Object(vec![("max_diff".to_string(), Json::Text("far".to_string()))]));
    assert_eq!(odd.validate(), Err("max_diff must be numeric".to_string()));
    odd.error_context = Some(Json::Object(Vec::new()));
    assert_eq!(odd.validate(), Ok(()));
}

#[test]
fn batches_below_unknown_nodes_are_refused() {
    let mut tree = started(Strategy::Greedy);
    assert_eq!(tree.record_batch(Some(7), vec![failure()]), Err("invalid parent".to_string()));
    assert_eq!(tree.record_batch(Some(ROOT), vec![failure()]), Err("invalid parent".to_string()));
    assert_eq!(tree.record_batch(None, vec![failure(), failure()]), Ok(vec![1, 2]));
}

#[test]
fn searches_with_infinite_parameters_are_refused() {
    let config = SearchConfig { pw_alpha: Some(ranked(f64::INFINITY)), ..SearchConfig::default() };
    assert_eq!(
        SearchState::new(Strategy::Mcts, config).err(),
        Some("search parameters must be finite".to_string())
    );
}

#[test]
fn limits_depend_on_the_strategy() {
    let config = SearchConfig::default();
    assert_eq!(config.max_iterations(Strategy::Greedy), 3);
    assert_eq!(config.max_iterations(Strategy::Mcts), 10);
    assert_eq!(config.num_candidates(), 2);
}

#[test]
fn rewards_follow_the_logarithm() {
    let mut tree = started(Strategy::Mcts);
    tree.record_batch(None, vec![success(4.0), outcome(Status::Failed, Some(1.0)), failure()])
        .unwrap();
    assert_eq!(number(tree.nodes[1].mcts_reward()), 4.0f64.ln());
    assert_eq!(number(tree.nodes[2].mcts_reward()), -2.0);
    assert_eq!(number(tree.nodes[3].mcts_reward()), -3.0);
    assert_eq!(number(tree.nodes[3].mcts_score()), f64::NEG_INFINITY);
    assert_eq!(tree.nodes[ROOT].credits, vec![1, 2, 3]);
    assert_eq!(tree.nodes[1].name, "iter0_sol0".to_string());
}

#[test]
fn greedy_selection_prefers_the_best_candidate() {
    let mut tree = started(Strategy::Greedy);
    tree.record_batch(None, vec![success(1.5), success(3.0), failure()]).unwrap();
    let table = scores(&tree);
    assert_eq!(tree.select(&table), Some(2));
    assert_eq!(tree.current_best, Some(2));
}

#[test]
fn greedy_selection_repairs_where_nothing_worked() {
    let mut tree = started(Strategy::Greedy);
    tree.record_batch(None, vec![failure(), failure()]).unwrap();
    let table = scores(&tree);
    let chosen = tree.select(&table);
    assert!(chosen == Some(1) || chosen == Some(2));
}

#[test]
fn selection_adds_no_node() {
    let mut tree = started(Strategy::Mcts);
    tree.record_batch(None, vec![success(1.5), failure()]).unwrap();
    let table = scores(&tree);
    let chosen = tree.select(&table);
    assert_eq!(tree.nodes.len(), 3);
    assert!(chosen.is_none_or(|id| ROOT < id && id < 3));
}

#[test]
fn searches_stop_at_the_limit() {
    let config = SearchConfig { max_iterations: Some(1), ..SearchConfig::default() };
    let mut tree = SearchState::new(Strategy::Mcts, config).unwrap();
    assert!(tree.should_continue(gain(&tree)));
    tree.record_batch(None, vec![success(1.0)]).unwrap();
    assert!(!tree.should_continue(gain(&tree)));
}

fn grown() -> SearchState {
    let mut tree = started(Strategy::Mcts);
    tree.record_batch(None, vec![failure(), success(1.5)]).unwrap();
    tree.record_batch(Some(2), vec![success(1.2), failure()]).unwrap();
    tree.record_batch(Some(3), vec![success(1.1)]).unwrap();
    tree.record_batch(None, vec![success(0.5)]).unwrap();
    tree
}

#[test]
fn visits_count_the_nodes_below() {
    let tree = grown();
    let visits: Vec<u64> = tree.nodes.iter().map(|node| node.visits).collect();
    assert_eq!(visits, vec![6, 1, 4, 2, 1, 1, 1]);
    for node in &tree.nodes[1..] {
        let parent = node.parent.unwrap();
        assert!(parent < node.id);
        let listed = tree.nodes[parent].children.iter().filter(|id| **id == node.id).count();
        assert_eq!(listed, 1);
    }
}

#[test]
fn the_greedy_best_is_the_winner() {
    let mut tree = started(Strategy::Greedy);
    tree.record_batch(None, vec![failure()]).unwrap();
    assert_eq!((tree.current_best, tree.winner()), (None, None));
    tree.record_batch(None, vec![success(1.5), success(2.0), success(2.0)]).unwrap();
    tree.record_batch(Some(3), vec![success(1.0)]).unwrap();
    assert_eq!((tree.current_best, tree.winner()), (Some(3), Some(3)));
}

fn written(tree: &SearchState) -> String {
    let ids = |list: &[usize]| serde_json::to_value(list).unwrap();
    let nodes: Vec<serde_json::Value> = tree
        .nodes
        .iter()
        .map(|node| {
            let fields: Vec<(String, serde_json::Value)> = vec![
                ("id".to_string(), node.id.into()),
                ("name".to_string(), node.name.clone().into()),
                ("iteration".to_string(), node.iteration.into()),
                ("parent".to_string(), node.parent.into()),
                ("children".to_string(), ids(&node.children)),
                ("status".to_string(), (node.outcome.status as u8).into()),
                ("speedup".to_string(), node.outcome.speedup.map(number).into()),
                ("visits".to_string(), node.visits.into()),
                ("terminal".to_string(), node.terminal.into()),
            ];
            serde_json::Value::Object(fields.into_iter().collect())
        })
        .collect();
    serde_json::to_string(&nodes).unwrap()
}

fn read_back(text: &str, tree: &SearchState) -> Result<SearchState, String> {
    let nodes: Vec<serde_json::Value> = serde_json::from_str(text).unwrap();
    let place = |value: &serde_json::Value| value.as_u64().unwrap() as usize;
    let statuses = [Status::Pending, Status::Success, Status::Failed, Status::Discarded];
    SearchState::restore(SearchState {
        strategy: tree.strategy,
        config: tree.config,
        nodes: nodes
            .iter()
            .map(|node| Node {
                id: place(&node["id"]),
                name: node["name"].as_str().unwrap().to_string(),
                iteration: node["iteration"].as_i64().unwrap(),
                parent: node["parent"].as_u64().map(|parent| parent as usize),
                children: node["children"].as_array().unwrap().iter().map(place).collect(),
                outcome: outcome(statuses[place(&node["status"])], node["speedup"].as_f64()),
                visits: node["visits"].as_u64().unwrap(),
                credits: Vec::new(),
                terminal: node["terminal"].as_bool().unwrap(),
            })
            .collect(),
        current_iteration: tree.current_iteration,
        current_best: tree.current_best,
        consecutive_failures: tree.consecutive_failures,
        speedup_history: tree.speedup_history.clone(),
        root_expansions: tree.root_expansions,
        pw_gate_closures: tree.pw_gate_closures,
        virtual_child_wins: tree.virtual_child_wins,
    })
}

#[test]
fn serialized_state_preserves_selection() {
    let mut tree = started(Strategy::Mcts);
    tree.record_batch(None, vec![failure(), success(1.5)]).unwrap();
    let mut restored = read_back(&written(&tree), &tree).ok().unwrap();
    let (one, two) = (scores(&tree), scores(&restored));
    assert_eq!(tree.select(&one), restored.select(&two));
    assert_eq!(written(&tree), written(&restored));
    let credits = |tree: &SearchState| -> Vec<Vec<usize>> {
        tree.nodes.iter().map(|node| node.credits.clone()).collect()
    };
    assert_eq!(credits(&tree), credits(&restored));
    let larger = grown();
    let back = read_back(&written(&larger), &larger).ok().unwrap();
    assert_eq!(credits(&larger), credits(&back));
}

#[test]
fn unsound_searches_are_not_restored() {
    let tree = grown();
    let text = written(&tree);
    let refused = |from: &str, to: &str| {
        assert!(text.contains(from));
        read_back(&text.replacen(from, to, 1), &tree).err()
    };
    let reason = Some("unsound search".to_string());
    assert_eq!(refused("\"children\":[1,2,6]", "\"children\":[1,2]"), reason);
    assert_eq!(refused("\"visits\":4", "\"visits\":5"), reason);
    assert_eq!(refused("\"parent\":3", "\"parent\":6"), reason);
    let mut other = grown();
    other.current_best = Some(1);
    assert_eq!(read_back(&text, &other).err(), reason);
    other.current_best = tree.current_best;
    other.current_iteration = 2;
    assert_eq!(read_back(&text, &other).err(), reason);
}

fn step(tree: &mut SearchState, batch: Vec<Outcome>) -> Result<Option<Option<usize>>, String> {
    let (gain, table) = (gain(tree), scores(tree));
    assert!(table.cover(tree.nodes.len()));
    tree.replay(gain, &table, batch)
}

#[test]
fn replays_record_batches_until_the_search_stops() {
    let mut tree = started(Strategy::Greedy);
    assert_eq!(step(&mut tree, vec![success(2.0), success(1.0)]), Ok(Some(None)));
    assert_eq!(step(&mut tree, vec![success(1.5)]), Ok(Some(Some(1))));
    assert_eq!(step(&mut tree, vec![success(9.0)]), Ok(None));
    assert_eq!((tree.nodes.len(), tree.winner()), (4, Some(1)));
    let mut tree = started(Strategy::Mcts);
    assert_eq!(step(&mut tree, vec![failure(), success(1.5)]), Ok(Some(None)));
    let mut twin = read_back(&written(&tree), &tree).ok().unwrap();
    let table = scores(&twin);
    let parent = twin.select(&table);
    assert_eq!(step(&mut tree, vec![success(1.6)]), Ok(Some(parent)));
    assert_eq!(
        step(&mut tree, vec![outcome(Status::Pending, None)]),
        Err("cannot commit a pending outcome".to_string())
    );
    assert_eq!(tree.nodes.len(), 4);
}
