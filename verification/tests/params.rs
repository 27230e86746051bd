use hypertune::binary64::Binary64;
use hypertune::command::{build_arguments, flag_for};
use hypertune::param::{Observation, Param, ParamState, Proposal, RangeError};
use hypertune::space::{AskError, ParamSet, Placement};
use hypertune::text::{compare, copy_list, Order};

fn b(x: f64) -> Binary64 {
    Binary64 { bits: x.to_bits() }
}

fn proposal(x: f64) -> Proposal {
    Proposal { value: b(x), text: x.to_string() }
}

fn strings(v: &[&str]) -> Vec<String> {
    v.iter().map(|s| s.to_string()).collect()
}

#[test]
fn categorical_needs_a_level() {
    assert_eq!(Param::Categorical(0).validate(), Err(RangeError::NoLevel));
    assert_eq!(Param::Categorical(1).validate(), Ok(()));
    assert_eq!(Param::Categorical(usize::MAX).validate(), Ok(()));
    assert_eq!(ParamState::try_from(Param::Categorical(0)).unwrap_err(), RangeError::NoLevel);
}

#[test]
fn numeric_needs_lower_below_upper() {
    assert_eq!(Param::Numeric(b(0.0), b(1.0)).validate(), Ok(()));
    assert_eq!(Param::Numeric(b(-5.0), b(5.0)).validate(), Ok(()));
    assert_eq!(Param::Numeric(b(-0.5), b(f64::INFINITY)).validate(), Ok(()));
    assert_eq!(Param::Numeric(b(1.0), b(1.0)).validate(), Err(RangeError::EmptyRange));
    assert_eq!(Param::Numeric(b(2.0), b(1.0)).validate(), Err(RangeError::EmptyRange));
    assert_eq!(Param::Numeric(b(0.0), b(-0.0)).validate(), Err(RangeError::EmptyRange));
    assert_eq!(Param::Numeric(b(f64::NAN), b(1.0)).validate(), Err(RangeError::EmptyRange));
    assert_eq!(Param::Numeric(b(0.0), b(f64::NAN)).validate(), Err(RangeError::EmptyRange));
    assert_eq!(
        ParamState::try_from(Param::Numeric(b(3.0), b(3.0))).unwrap_err(),
        RangeError::EmptyRange
    );
}

#[test]
fn what_the_optimizer_takes_for_a_range_is_a_search_space() {
    let bounds = [
        (0.0, 1.0),
        (1.0, 0.0),
        (1.0, 1.0),
        (-5.0, 5.0),
        (f64::NAN, 1.0),
        (0.0, f64::NAN),
        (-1e-300, 1e-300),
        (-1e308, 1e308),
        (5e-324, 1e-323),
    ];
    for (lower, upper) in bounds {
        let here = Param::Numeric(b(lower), b(upper)).validate();
        assert_eq!(here.is_ok(), lower < upper);
        if tpe::range(lower, upper).is_ok() {
            assert_eq!(here, Ok(()));
        }
    }
    for levels in [0usize, 1, 2, 100] {
        let here = Param::Categorical(levels).validate();
        assert_eq!(here.is_ok(), tpe::categorical_range(levels).is_ok());
    }
}

#[test]
fn a_fresh_state_has_value_zero() {
    let state = ParamState::try_from(Param::Categorical(3)).unwrap();
    assert_eq!(state.value(), b(0.0));
    assert_eq!(state.get_value(), "0");
    assert_eq!(state.param(), Param::Categorical(3));
    let state = ParamState::try_from(Param::Numeric(b(0.0), b(1.0))).unwrap();
    assert_eq!(state.value(), b(0.0));
    assert_eq!(state.get_value(), 0.0f64.to_string());
}

#[test]
fn categorical_value_is_written_as_its_level() {
    let mut state = ParamState::try_from(Param::Categorical(3)).unwrap();
    assert!(state.ask(&proposal(2.000_000_1)));
    assert_eq!(state.get_value(), "2");
    assert!(state.ask(&proposal(1.0)));
    assert_eq!(state.get_value(), "1");
    assert!(state.ask(&proposal(-0.0)));
    assert_eq!(state.get_value(), "0");
}

#[test]
fn categorical_text_is_a_level_below_the_count() {
    for levels in [1usize, 2, 3, 10, 1000] {
        let mut state = ParamState::try_from(Param::Categorical(levels)).unwrap();
        let mut x = 0.0;
        while x < levels as f64 {
            assert!(state.ask(&proposal(x)));
            let level: usize = state.get_value().parse().unwrap();
            assert!(level < levels);
            assert_eq!(level, x as usize);
            x += 0.37;
        }
    }
}

#[test]
fn proposals_outside_the_search_space_are_refused() {
    let mut state = ParamState::try_from(Param::Categorical(3)).unwrap();
    assert!(state.ask(&proposal(2.5)));
    for x in [3.0, 3.5, -1.0, -0.5, f64::NAN, f64::INFINITY] {
        assert!(!state.ask(&proposal(x)));
        assert_eq!(state.value(), b(2.5));
        assert_eq!(state.get_value(), "2");
    }
    let mut state = ParamState::try_from(Param::Numeric(b(-1.0), b(1.0))).unwrap();
    assert!(state.ask(&proposal(-1.0)));
    assert!(state.ask(&proposal(0.999)));
    for x in [1.0, -1.000_001, f64::NAN, f64::NEG_INFINITY] {
        assert!(!state.ask(&proposal(x)));
        assert_eq!(state.value(), b(0.999));
    }
}

#[test]
fn contains_agrees_with_the_optimizer_on_its_range() {
    let range = tpe::range(-1.5, 2.5).unwrap();
    let param = Param::Numeric(b(-1.5), b(2.5));
    let levels = tpe::categorical_range(4).unwrap();
    let choice = Param::Categorical(4);
    for x in [-2.0, -1.5, -0.0, 0.0, 2.499, 2.5, 3.0, 3.999, 4.0, f64::INFINITY, -f64::INFINITY] {
        assert_eq!(param.contains(b(x)), range.contains(x), "numeric {:?}", x);
        assert_eq!(choice.contains(b(x)), levels.contains(x), "categorical {:?}", x);
    }
    assert!(!param.contains(b(f64::NAN)));
    assert!(!choice.contains(b(f64::NAN)));
}

#[test]
fn numeric_value_round_trips_through_its_text() {
    let mut state = ParamState::try_from(Param::Numeric(b(-1e300), b(1e300))).unwrap();
    for x in [0.1, 0.5, 1.0 / 3.0, -2.5e-7, 123456789.123456789, 5e-324, 1e299, -0.0] {
        assert!(state.ask(&proposal(x)));
        let text = state.get_value();
        assert_eq!(text, x.to_string());
        assert_eq!(text.parse::<f64>().unwrap().to_bits(), x.to_bits());
        assert_eq!(state.value(), b(x));
    }
}

#[test]
fn tell_pairs_the_current_value_with_the_score() {
    let mut state = ParamState::try_from(Param::Numeric(b(0.0), b(1.0))).unwrap();
    assert!(state.ask(&proposal(0.25)));
    assert_eq!(state.tell(b(-4.0)), Observation { value: b(0.25), score: b(-4.0) });
}

#[test]
fn names_are_ordered_by_their_bytes() {
    let names = ["", "a", "ab", "b", "B", "Z", "lr", "x", "é", "z", "~", "a b", "10", "9"];
    for x in names {
        for y in names {
            let want = match x.cmp(y) {
                std::cmp::Ordering::Less => Order::Before,
                std::cmp::Ordering::Equal => Order::Same,
                std::cmp::Ordering::Greater => Order::After,
            };
            assert_eq!(compare(x, y), want, "{:?} against {:?}", x, y);
        }
    }
}

#[test]
fn a_copy_holds_the_same_strings() {
    let v = strings(&["a", "", "b c"]);
    assert_eq!(copy_list(&v), v);
    assert_eq!(copy_list(&Vec::new()), Vec::<String>::new());
}

#[test]
fn parameters_stand_in_the_order_of_their_names() {
    let mut set = ParamSet::new();
    assert_eq!(set.len(), 0);
    let at = set.insert("momentum".to_string(), Param::Numeric(b(0.0), b(1.0))).unwrap();
    assert_eq!(at, Placement { index: 0, replaced: false });
    let at = set.insert("x".to_string(), Param::Categorical(3)).unwrap();
    assert_eq!(at, Placement { index: 1, replaced: false });
    let at = set.insert("batch".to_string(), Param::Categorical(4)).unwrap();
    assert_eq!(at, Placement { index: 0, replaced: false });
    let at = set.insert("lr".to_string(), Param::Numeric(b(1e-5), b(1e-1))).unwrap();
    assert_eq!(at, Placement { index: 1, replaced: false });
    assert_eq!(set.len(), 4);
    assert_eq!(set.names_list(), strings(&["batch", "lr", "momentum", "x"]));
    assert_eq!(set.name(2), "momentum");
    assert_eq!(set.state(3).param(), Param::Categorical(3));
    assert_eq!(set.state(1).param(), Param::Numeric(b(1e-5), b(1e-1)));
}

#[test]
fn a_name_occurs_once_and_the_later_parameter_stays() {
    let mut set = ParamSet::new();
    set.insert("a".to_string(), Param::Categorical(2)).unwrap();
    set.insert("b".to_string(), Param::Categorical(3)).unwrap();
    let at = set.insert("a".to_string(), Param::Categorical(7)).unwrap();
    assert_eq!(at, Placement { index: 0, replaced: true });
    assert_eq!(set.len(), 2);
    assert_eq!(set.names_list(), strings(&["a", "b"]));
    assert_eq!(set.state(0).param(), Param::Categorical(7));
    assert_eq!(set.state(1).param(), Param::Categorical(3));
}

#[test]
fn an_unsound_parameter_is_not_put_in() {
    let mut set = ParamSet::new();
    set.insert("a".to_string(), Param::Categorical(2)).unwrap();
    assert_eq!(set.insert("b".to_string(), Param::Categorical(0)), Err(RangeError::NoLevel));
    assert_eq!(
        set.insert("a".to_string(), Param::Numeric(b(1.0), b(0.5))),
        Err(RangeError::EmptyRange)
    );
    assert_eq!(set.len(), 1);
    assert_eq!(set.state(0).param(), Param::Categorical(2));
}

#[test]
fn a_round_of_proposals_is_taken_in_whole_or_not_at_all() {
    let mut set = ParamSet::new();
    set.insert("c".to_string(), Param::Categorical(3)).unwrap();
    set.insert("x".to_string(), Param::Numeric(b(0.0), b(1.0))).unwrap();
    assert_eq!(set.ask(&vec![proposal(2.0), proposal(0.75)]), Ok(()));
    assert_eq!(set.values(), strings(&["2", "0.75"]));
    assert_eq!(set.ask(&vec![proposal(1.0), proposal(1.5)]), Err(AskError::OutOfRange(1)));
    assert_eq!(set.values(), strings(&["2", "0.75"]));
    assert_eq!(set.ask(&vec![proposal(3.0), proposal(1.5)]), Err(AskError::OutOfRange(0)));
    assert_eq!(set.ask(&vec![proposal(1.0)]), Err(AskError::WrongCount));
    assert_eq!(set.ask(&vec![]), Err(AskError::WrongCount));
    assert_eq!(set.values(), strings(&["2", "0.75"]));
    assert_eq!(
        set.tell(b(9.5)),
        vec![
            Observation { value: b(2.0), score: b(9.5) },
            Observation { value: b(0.75), score: b(9.5) }
        ]
    );
}

#[test]
fn a_single_character_takes_one_dash() {
    assert_eq!(flag_for("x"), "-x");
    assert_eq!(flag_for("learning_rate"), "--learning_rate");
    assert_eq!(flag_for("lr"), "--lr");
    assert_eq!(flag_for(""), "--");
    assert_eq!(flag_for("é"), "-é");
}

#[test]
fn arguments_are_the_fixed_ones_then_flag_and_value_by_name() {
    let mut set = ParamSet::new();
    set.insert("x".to_string(), Param::Numeric(b(0.0), b(1.0))).unwrap();
    set.insert("learning_rate".to_string(), Param::Numeric(b(0.0), b(1.0))).unwrap();
    set.insert("c".to_string(), Param::Categorical(5)).unwrap();
    set.ask(&vec![proposal(4.2), proposal(0.001), proposal(0.5)]).unwrap();
    let fixed = strings(&["train.py", "--epochs", "3"]);
    assert_eq!(
        build_arguments(&fixed, &set),
        strings(&["train.py", "--epochs", "3", "-c", "4", "--learning_rate", "0.001", "-x", "0.5"])
    );
    assert_eq!(build_arguments(&Vec::new(), &ParamSet::new()), Vec::<String>::new());
    assert_eq!(build_arguments(&fixed, &ParamSet::new()), fixed);
}
