use dataset_destroyer::config::enumerations::Parameter;
use dataset_destroyer::config::filter::Sharpen3x3;
use dataset_destroyer::config::Config;
use dataset_destroyer::config::ImageModifier;
use dataset_destroyer::config::Sequence;
use dataset_destroyer::error::ConfigFault;
use dataset_destroyer::error::Error;

fn ids(names: &[&str]) -> Vec<String> {
    names.iter().map(|name| name.to_string()).collect()
}

fn literal(id: &str) -> Parameter {
    Parameter::Id(id.to_string())
}

fn one_of(names: &[&str]) -> Parameter {
    Parameter::RandId(ids(names))
}

fn several_of(names: &[&str], count: usize) -> Parameter {
    Parameter::RandMulId(ids(names), count)
}

fn config(sequences: Vec<(&str, Vec<Parameter>)>, execute: Option<Parameter>) -> Config {
    Config {
        input: None,
        output: None,
        progress: None,
        define: Some(
            ["a", "b", "c", "d"]
                .iter()
                .map(|id| ImageModifier::Sharpen3x3(Box::new(Sharpen3x3 { id: id.to_string() })))
                .collect(),
        ),
        sequence: Some(
            sequences
                .into_iter()
                .map(|(id, elements)| Sequence { id: id.to_string(), elements })
                .collect(),
        ),
        execute,
    }
}

fn choice() -> Config {
    config(
        vec![
            ("s", vec![literal("a"), one_of(&["b", "pair", "s", "missing"]), literal("a")]),
            ("pair", vec![literal("c"), literal("c")]),
        ],
        None,
    )
}

#[test]
fn literal_identifiers_take_no_draw() {
    let config = config(vec![("s", vec![literal("a"), literal("b")])], None);
    assert_eq!(config.replay_id("a", &vec![]), Some((Ok(ids(&["a"])), 0)));
    assert_eq!(config.replay_id("s", &vec![]), Some((Ok(ids(&["a", "b"])), 0)));
    assert_eq!(config.replay_id("s", &vec![vec![7]]), Some((Ok(ids(&["a", "b"])), 0)));
    assert_eq!(
        config.replay_id("nothing", &vec![]),
        Some((Err(Error::UnknownIdentifier("nothing".to_string())), 0))
    );
}

#[test]
fn drawn_position_decides_what_a_choice_unfolds_to() {
    let config = choice();
    assert_eq!(config.replay_id("s", &vec![vec![0]]), Some((Ok(ids(&["a", "b", "a"])), 1)));
    assert_eq!(config.replay_id("s", &vec![vec![1]]), Some((Ok(ids(&["a", "c", "c", "a"])), 1)));
    assert_eq!(
        config.replay_id("s", &vec![vec![2]]),
        Some((Err(Error::CyclicSequence("s".to_string())), 1))
    );
    assert_eq!(
        config.replay_id("s", &vec![vec![3]]),
        Some((Err(Error::UnknownIdentifier("missing".to_string())), 1))
    );
}

#[test]
fn script_that_runs_out_does_not_fit() {
    assert_eq!(choice().replay_id("s", &vec![]), None);
}

#[test]
fn draw_that_cannot_be_made_does_not_fit() {
    let config = choice();
    assert_eq!(config.replay_id("s", &vec![vec![4]]), None);
    assert_eq!(config.replay_id("s", &vec![vec![]]), None);
    assert_eq!(config.replay_id("s", &vec![vec![0, 1]]), None);
}

#[test]
fn draws_beyond_the_walk_are_left_unread() {
    let config = choice();
    assert_eq!(
        config.replay_id("s", &vec![vec![0], vec![9], vec![]]),
        Some((Ok(ids(&["a", "b", "a"])), 1))
    );
}

#[test]
fn draws_are_read_in_the_order_of_the_walk() {
    let config = config(
        vec![
            ("outer", vec![one_of(&["inner", "a"]), one_of(&["b", "inner"])]),
            ("inner", vec![one_of(&["c", "d"]), literal("a")]),
        ],
        None,
    );
    assert_eq!(
        config.replay_id("outer", &vec![vec![0], vec![1], vec![1], vec![0]]),
        Some((Ok(ids(&["d", "a", "c", "a"])), 4))
    );
    assert_eq!(
        config.replay_id("outer", &vec![vec![1], vec![0]]),
        Some((Ok(ids(&["a", "b"])), 2))
    );
    assert_eq!(config.replay_id("outer", &vec![vec![0], vec![1], vec![1]]), None);
}

#[test]
fn fan_out_follows_the_order_of_the_drawn_positions() {
    let config = config(
        vec![("s", vec![several_of(&["a", "pair", "b"], 2)]), ("pair", vec![literal("c"), literal("d")])],
        None,
    );
    assert_eq!(config.replay_id("s", &vec![vec![0, 1]]), Some((Ok(ids(&["a", "c", "d"])), 1)));
    assert_eq!(config.replay_id("s", &vec![vec![1, 0]]), Some((Ok(ids(&["c", "d", "a"])), 1)));
    assert_eq!(config.replay_id("s", &vec![vec![2, 0]]), Some((Ok(ids(&["b", "a"])), 1)));
}

#[test]
fn fan_out_takes_no_position_twice_and_none_beyond_the_set() {
    let config = config(vec![("s", vec![several_of(&["a", "b", "c"], 2)])], None);
    assert_eq!(config.replay_id("s", &vec![vec![1, 1]]), None);
    assert_eq!(config.replay_id("s", &vec![vec![0, 3]]), None);
    assert_eq!(config.replay_id("s", &vec![vec![0]]), None);
    assert_eq!(config.replay_id("s", &vec![vec![0, 1, 2]]), None);
}

#[test]
fn element_that_cannot_resolve_fails_without_a_draw() {
    let config = config(
        vec![
            ("empty", vec![one_of(&[])]),
            ("short", vec![several_of(&["a"], 2)]),
            ("other", vec![Parameter::Int(1)]),
        ],
        None,
    );
    assert_eq!(config.replay_id("empty", &vec![vec![0]]), Some((Err(Error::EmptySet), 0)));
    assert_eq!(config.replay_id("short", &vec![vec![0, 0]]), Some((Err(Error::InsufficientElements), 0)));
    assert_eq!(config.replay_id("other", &vec![]), Some((Err(Error::TypeMismatch), 0)));
}

#[test]
fn failure_ends_the_walk_before_later_draws() {
    let config = config(vec![("s", vec![one_of(&["missing", "a"]), one_of(&["b", "c"])])], None);
    assert_eq!(
        config.replay_id("s", &vec![vec![0], vec![1]]),
        Some((Err(Error::UnknownIdentifier("missing".to_string())), 1))
    );
    assert_eq!(config.replay_id("s", &vec![vec![1], vec![1]]), Some((Ok(ids(&["a", "c"])), 2)));
}

#[test]
fn plan_replays_the_directive_and_what_it_gave() {
    let sequences = vec![("s", vec![literal("a"), one_of(&["b", "c"])])];
    let drawn = config(sequences.clone(), Some(several_of(&["s", "d"], 2)));
    assert_eq!(
        drawn.replay_plan(&vec![vec![1, 0], vec![1]]),
        Some((Ok(ids(&["d", "a", "c"])), 2))
    );
    assert_eq!(
        drawn.replay_plan(&vec![vec![0, 1], vec![0]]),
        Some((Ok(ids(&["a", "b", "d"])), 2))
    );
    assert_eq!(drawn.replay_plan(&vec![vec![0, 1]]), None);
    assert_eq!(drawn.replay_plan(&vec![]), None);
    let fixed = config(sequences.clone(), Some(literal("s")));
    assert_eq!(fixed.replay_plan(&vec![vec![0]]), Some((Ok(ids(&["a", "b"])), 1)));
    let missing = config(sequences, None);
    assert_eq!(
        missing.replay_plan(&vec![vec![0]]),
        Some((Err(Error::Config(ConfigFault::MissingExecute)), 0))
    );
}

#[test]
fn draw_gives_the_identifiers_at_its_positions() {
    let several = several_of(&["a", "b", "c"], 2);
    assert_eq!(several.ids_at(&vec![2, 0]), Some(ids(&["c", "a"])));
    assert_eq!(several.ids_at(&vec![2, 2]), None);
    assert_eq!(several.ids_at(&vec![3, 0]), None);
    assert_eq!(several.ids_at(&vec![1]), None);
    assert_eq!(several_of(&["a"], 0).ids_at(&vec![]), Some(vec![]));
    let one = one_of(&["a", "b"]);
    assert_eq!(one.ids_at(&vec![1]), Some(ids(&["b"])));
    assert_eq!(one.ids_at(&vec![2]), None);
    assert_eq!(one.ids_at(&vec![]), None);
    assert_eq!(one.ids_at(&vec![0, 1]), None);
    assert_eq!(literal("a").ids_at(&vec![0]), None);
    assert_eq!(literal("a").ids_at(&vec![]), None);
    assert_eq!(Parameter::Int(1).ids_at(&vec![0]), None);
}

#[test]
fn rule_decides_the_fault_of_identifier_resolution() {
    assert_eq!(literal("a").ids_fault(), None);
    assert_eq!(one_of(&["a"]).ids_fault(), None);
    assert_eq!(one_of(&[]).ids_fault(), Some(Error::EmptySet));
    assert_eq!(several_of(&["a", "b"], 2).ids_fault(), None);
    assert_eq!(several_of(&["a", "b"], 3).ids_fault(), Some(Error::InsufficientElements));
    assert_eq!(Parameter::Int(1).ids_fault(), Some(Error::TypeMismatch));
    assert_eq!(Parameter::RandFormat.ids_fault(), Some(Error::TypeMismatch));
}

#[test]
fn generator_and_script_agree_where_nothing_is_drawn() {
    let config = config(
        vec![("s", vec![literal("a"), literal("t"), literal("b")]), ("t", vec![literal("c")])],
        Some(literal("s")),
    );
    let replayed = config.replay_id("s", &vec![]).unwrap().0;
    assert_eq!(config.unwrap_id("s"), replayed);
    assert_eq!(config.build_plan(), config.replay_plan(&vec![]).unwrap().0);
}
