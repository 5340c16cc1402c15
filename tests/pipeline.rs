use gtc_api::chain::Chain;
use gtc_api::loading::{split_batches, BATCH_LIMIT};
use gtc_api::models::{Program, Record, Vote};
use gtc_api::paging::{Pager, PAGE_SIZE};
use gtc_api::run::{page_query, IngestError, Run, RunState, Stage};
use gtc_api::tagging::add_chain_id;
use std::collections::BTreeMap;

fn program(n: usize) -> Program {
    Program {
        id: format!("p{:05}", n),
        created_at: format!("{}", 1000 + n),
        updated_at: format!("{}", 2000 + n),
        chain_id: None,
    }
}

fn programs(lo: usize, hi: usize) -> Vec<Program> {
    (lo..=hi).map(program).collect()
}

/// A provider answering with the records after `cursor`, at most one page.
fn provider_page(db: &[Program], cursor: &str) -> Vec<Program> {
    db.iter().filter(|p| p.id.as_str() > cursor).take(PAGE_SIZE).cloned().collect()
}

fn fetch_all(db: &[Program]) -> (Vec<Program>, usize) {
    let mut pager: Pager<Program> = Pager::new();
    let mut asked = 0;
    while let Some(cursor) = pager.next_cursor().cloned() {
        asked += 1;
        pager.accept_page(provider_page(db, &cursor));
    }
    assert_eq!(pager.requests(), asked);
    (pager.into_records(), asked)
}

fn load(table: &mut BTreeMap<String, Program>, records: Vec<Program>) -> Vec<usize> {
    let mut sizes = Vec::new();
    for batch in split_batches(records) {
        assert!(batch.len() <= BATCH_LIMIT);
        sizes.push(batch.len());
        for r in batch {
            table.entry(r.id.clone()).or_insert(r);
        }
    }
    sizes
}

#[test]
fn fetch_empty_provider() {
    let (got, asked) = fetch_all(&[]);
    assert!(got.is_empty());
    assert_eq!(asked, 1);
}

#[test]
fn fetch_exactly_one_page() {
    let db = programs(1, 1000);
    let (got, asked) = fetch_all(&db);
    assert_eq!(got, db);
    assert_eq!(asked, 2);
}

#[test]
fn fetch_one_past_a_page() {
    let db = programs(1, 1001);
    let (got, asked) = fetch_all(&db);
    assert_eq!(got, db);
    assert_eq!(asked, 2);
}

#[test]
fn fetch_three_pages_and_seven() {
    let db = programs(1, 3007);
    let (got, asked) = fetch_all(&db);
    assert_eq!(got.len(), 3007);
    assert_eq!(got, db);
    assert_eq!(asked, 4);
}

#[test]
fn pager_stops_on_short_page() {
    let mut pager: Pager<Program> = Pager::new();
    assert_eq!(pager.next_cursor().map(|c| c.as_str()), Some(""));
    pager.accept_page(programs(1, 1000));
    assert_eq!(pager.next_cursor().map(|c| c.as_str()), Some("p01000"));
    assert!(!pager.is_finished());
    pager.accept_page(programs(1001, 1003));
    assert!(pager.is_finished());
    assert!(pager.next_cursor().is_none());
    assert_eq!(pager.into_records().len(), 1003);
}

#[test]
fn thousand_and_three_programs() {
    let db = programs(1, 1003);
    let (got, asked) = fetch_all(&db);
    assert_eq!(asked, 2);
    assert_eq!(got.len(), 1003);
    let mut table = BTreeMap::new();
    load(&mut table, programs(1, 1000));
    let sizes = load(&mut table, got);
    assert_eq!(sizes, vec![1000, 3]);
    assert_eq!(table.len(), 1003);
    assert!(table.contains_key("p01001") && table.contains_key("p01003"));
}

#[test]
fn batches_at_the_limit() {
    let sizes: Vec<usize> = split_batches(programs(1, BATCH_LIMIT + 1)).iter().map(|b| b.len()).collect();
    assert_eq!(sizes, vec![1000, 1]);
    let sizes: Vec<usize> = split_batches(programs(1, 1000)).iter().map(|b| b.len()).collect();
    assert_eq!(sizes, vec![1000]);
    let sizes: Vec<usize> = split_batches(programs(1, 2500)).iter().map(|b| b.len()).collect();
    assert_eq!(sizes, vec![1000, 1000, 500]);
    assert!(split_batches(Vec::<Program>::new()).is_empty());
}

#[test]
fn batches_keep_order() {
    let all = programs(1, 2001);
    let flat: Vec<Program> = split_batches(all.clone()).into_iter().flatten().collect();
    assert_eq!(flat, all);
}

#[test]
fn load_twice_keeps_one_copy() {
    let mut table = BTreeMap::new();
    load(&mut table, programs(1, 1500));
    let before = table.clone();
    load(&mut table, programs(1, 1500));
    assert_eq!(table, before);
    assert_eq!(table.len(), 1500);
}

#[test]
fn load_overlapping_sets_gives_union() {
    let mut table = BTreeMap::new();
    load(&mut table, programs(1, 1200));
    let mut changed = programs(1100, 2000);
    for p in changed.iter_mut() {
        p.updated_at = "later".to_string();
    }
    load(&mut table, changed);
    assert_eq!(table.len(), 2000);
    assert_eq!(table["p01150"].updated_at, "3150");
    assert_eq!(table["p01500"].updated_at, "later");
}

#[test]
fn tagging_sets_only_the_chain() {
    let input = programs(1, 5);
    let chain = "250".to_string();
    let out = add_chain_id(&input, &chain);
    assert_eq!(out.len(), 5);
    for (a, b) in input.iter().zip(out.iter()) {
        assert_eq!(b.chain_id.as_deref(), Some("250"));
        assert_eq!(b.id, a.id);
        assert_eq!(b.created_at, a.created_at);
        assert_eq!(b.updated_at, a.updated_at);
    }
}

#[test]
fn tagging_votes_keeps_fields() {
    let v = Vote {
        id: "v1".to_string(),
        created_at: "7".to_string(),
        amount: "12.5".to_string(),
        from: "0xa".to_string(),
        to: "0xb".to_string(),
        token: "0xc".to_string(),
        version: "2".to_string(),
        project_id: Some("proj".to_string()),
        chain_id: Some("1".to_string()),
    };
    let out = add_chain_id(&vec![v.clone()], &"250".to_string());
    let mut expected = v.clone();
    expected.chain_id = Some("250".to_string());
    assert_eq!(out, vec![expected]);
    assert_eq!(out[0].id(), "v1");
}

#[test]
fn tagging_empty_input() {
    let out = add_chain_id(&Vec::<Program>::new(), &"10".to_string());
    assert!(out.is_empty());
}

#[test]
fn run_goes_through_stages_in_order() {
    let mut run = Run::begin("fantom_mainnet").unwrap();
    assert_eq!(run.chain(), Chain::FantomMainnet);
    let mut seen = Vec::new();
    while let Some(stage) = run.current_stage() {
        seen.push(stage);
        run.finish_stage(Ok(()));
    }
    assert_eq!(seen, vec![Stage::Programs, Stage::Rounds, Stage::Projects, Stage::Votes]);
    assert_eq!(run.state(), RunState::Completed);
}

#[test]
fn run_stops_at_first_failure() {
    let mut run = Run::begin("ethereum_goerli").unwrap();
    run.finish_stage(Ok(()));
    run.finish_stage(Err(IngestError::Provider));
    assert_eq!(run.state(), RunState::Failed(Stage::Rounds, IngestError::Provider));
    assert!(run.current_stage().is_none());
    run.finish_stage(Ok(()));
    assert_eq!(run.state(), RunState::Failed(Stage::Rounds, IngestError::Provider));
}

#[test]
fn run_store_failure_on_votes() {
    let mut run = Run::begin("optimism_mainnet").unwrap();
    for _ in 0..3 {
        run.finish_stage(Ok(()));
    }
    assert_eq!(run.current_stage(), Some(Stage::Votes));
    run.finish_stage(Err(IngestError::StoreWrite));
    assert_eq!(run.state(), RunState::Failed(Stage::Votes, IngestError::StoreWrite));
}

#[test]
fn unknown_chain_is_rejected() {
    assert_eq!(Run::begin("bitcoin").unwrap_err(), IngestError::UnknownChain);
    assert_eq!(Run::begin("").unwrap_err(), IngestError::UnknownChain);
    assert_eq!(Run::begin("Fantom_Mainnet").unwrap_err(), IngestError::UnknownChain);
}

#[test]
fn chains_by_name() {
    let cases = [
        ("ethereum_mainnet", Chain::EthereumMainnet, "1", "SUBGRAPH_ETHEREUM_MAINNET_API", "ethereum mainnet"),
        ("ethereum_goerli", Chain::EthereumGoerli, "5", "SUBGRAPH_ETHEREUM_GOERLI_API", "ethereum goerli"),
        ("optimism_mainnet", Chain::OptimismMainnet, "10", "SUBGRAPH_OPTIMISM_MAINNET_API", "optimism mainnet"),
        ("fantom_mainnet", Chain::FantomMainnet, "250", "SUBGRAPH_FANTOM_MAINNET_API", "fantom mainnet"),
        ("fantom_testnet", Chain::FantomTestnet, "4002", "SUBGRAPH_FANTOM_TESTNET_API", "fantom testnet"),
    ];
    for (name, chain, id, var, label) in cases {
        assert_eq!(Chain::from_name(name), Some(chain));
        assert_eq!(chain.chain_id(), id);
        assert_eq!(chain.endpoint_var(), var);
        assert_eq!(chain.label(), label);
    }
    assert_eq!(Chain::from_name("polygon"), None);
}

#[test]
fn page_queries() {
    assert_eq!(
        page_query(Stage::Programs, "p00042"),
        "query GetProgramsQuery { programs(first: 1000, where: { id_gt: \"p00042\" }) { id createdAt updatedAt } }"
    );
    assert_eq!(
        page_query(Stage::Rounds, ""),
        "query GetRoundsQuery { rounds(first: 1000, where: { id_gt: \"\" }) { id createdAt updatedAt } }"
    );
    assert_eq!(
        page_query(Stage::Projects, "x"),
        "query GetProjectQuery { roundProjects(first: 1000, where: { id_gt: \"x\" }) { id createdAt updatedAt } }"
    );
    assert_eq!(
        page_query(Stage::Votes, "v9"),
        "query GetVotesQuery { qfvotes(first: 1000, where: { id_gt: \"v9\" }) { id createdAt amount from to version token projectId } }"
    );
}
