use dataset_destroyer::config::enumerations::FloatBits;
use dataset_destroyer::config::enumerations::Parameter;
use dataset_destroyer::config::enumerations::ResizeFilter;
use dataset_destroyer::config::enumerations::SaveFormat;
use dataset_destroyer::error::ConfigFault;
use dataset_destroyer::error::Error;
use dataset_destroyer::processor::parameter::FloatDraw;

fn bits(value: f32) -> FloatBits {
    FloatBits { bits: value.to_bits() }
}

fn ids(names: &[&str]) -> Vec<String> {
    names.iter().map(|name| name.to_string()).collect()
}

#[test]
fn literal_int_resolves_to_itself_every_time() {
    let parameter = Parameter::Int(42);
    for _ in 0..100 {
        assert_eq!(parameter.resolve_int(), Ok(42));
    }
    assert_eq!(Parameter::Int(0).resolve_int(), Ok(0));
    assert_eq!(Parameter::Int(u32::MAX).resolve_int(), Ok(u32::MAX));
}

#[test]
fn literal_float_resolves_to_itself_every_time() {
    let parameter = Parameter::Float(bits(1.5));
    for _ in 0..100 {
        assert_eq!(parameter.float(), Ok(FloatDraw::Exact(bits(1.5))));
    }
    match parameter.float() {
        Ok(FloatDraw::Exact(found)) => assert_eq!(f32::from_bits(found.bits), 1.5),
        other => panic!("unexpected {:?}", other),
    }
}

#[test]
fn literal_id_resolves_to_itself_every_time() {
    let parameter = Parameter::Id("blur".to_string());
    for _ in 0..100 {
        assert_eq!(parameter.id_seq(), Ok(ids(&["blur"])));
    }
}

#[test]
fn random_int_stays_in_range_and_reaches_all_of_it() {
    let parameter = Parameter::RandInt(3, 7);
    let mut seen = [false; 4];
    for _ in 0..4000 {
        let value = parameter.resolve_int().unwrap();
        assert!((3..7).contains(&value));
        seen[(value - 3) as usize] = true;
    }
    assert_eq!(seen, [true, true, true, true]);
}

#[test]
fn random_int_of_one_value_is_that_value() {
    for _ in 0..50 {
        assert_eq!(Parameter::RandInt(9, 10).resolve_int(), Ok(9));
    }
}

#[test]
fn random_int_of_empty_range_is_empty_set() {
    assert_eq!(Parameter::RandInt(5, 5).resolve_int(), Err(Error::EmptySet));
    assert_eq!(Parameter::RandInt(6, 2).resolve_int(), Err(Error::EmptySet));
}

#[test]
fn random_int_beyond_32_bits_is_a_config_fault() {
    if usize::BITS > 32 {
        let limit = (1u64 << 32) as usize;
        assert_eq!(
            Parameter::RandInt(limit, limit + 1).resolve_int(),
            Err(Error::Config(ConfigFault::RangeBeyond32Bits))
        );
        assert_eq!(
            Parameter::RandInt(0, limit + 1).resolve_int(),
            Err(Error::Config(ConfigFault::RangeBeyond32Bits))
        );
        assert_eq!(Parameter::RandInt(limit - 1, limit).resolve_int(), Ok(u32::MAX));
        assert_eq!(Parameter::RandInt(limit + 1, limit).resolve_int(), Err(Error::EmptySet));
    }
}

#[test]
fn random_int_from_set_yields_members_and_reaches_each() {
    let parameter = Parameter::RandIntFrom(vec![5, 9, 100]);
    let mut seen = [false; 3];
    for _ in 0..3000 {
        match parameter.resolve_int().unwrap() {
            5 => seen[0] = true,
            9 => seen[1] = true,
            100 => seen[2] = true,
            other => panic!("{} is not in the set", other),
        }
    }
    assert_eq!(seen, [true, true, true]);
}

#[test]
fn random_int_from_empty_set_is_empty_set() {
    assert_eq!(Parameter::RandIntFrom(vec![]).resolve_int(), Err(Error::EmptySet));
}

#[test]
fn int_of_another_kind_is_type_mismatch() {
    let others = vec![
        Parameter::Id("a".to_string()),
        Parameter::RandId(ids(&["a"])),
        Parameter::RandMulId(ids(&["a"]), 1),
        Parameter::Percent(3),
        Parameter::RandPercent(),
        Parameter::RandPercentFrom(vec![1]),
        Parameter::Float(bits(1.0)),
        Parameter::RandFloat(bits(0.0), bits(1.0)),
        Parameter::RandFloatFrom(vec![bits(1.0)]),
        Parameter::RandResizeFilter,
        Parameter::RandResizeFilterFrom(vec![ResizeFilter::Point]),
        Parameter::RandResizeFilterWithout(vec![ResizeFilter::Point]),
        Parameter::RandFormat,
        Parameter::RandFormatFrom(vec![SaveFormat::Png]),
        Parameter::RandFormatWithout(vec![SaveFormat::Png]),
    ];
    for parameter in others {
        assert_eq!(parameter.resolve_int(), Err(Error::TypeMismatch));
    }
}

#[test]
fn random_float_range_hands_on_its_bounds() {
    let parameter = Parameter::RandFloat(bits(0.5), bits(2.5));
    assert_eq!(parameter.float(), Ok(FloatDraw::Between(bits(0.5), bits(2.5))));
}

#[test]
fn random_float_from_set_yields_members_and_reaches_each() {
    let parameter = Parameter::RandFloatFrom(vec![bits(0.25), bits(4.0)]);
    let mut seen = [false; 2];
    for _ in 0..2000 {
        match parameter.float().unwrap() {
            FloatDraw::Exact(found) if found == bits(0.25) => seen[0] = true,
            FloatDraw::Exact(found) if found == bits(4.0) => seen[1] = true,
            other => panic!("unexpected {:?}", other),
        }
    }
    assert_eq!(seen, [true, true]);
}

#[test]
fn random_float_from_empty_set_is_empty_set() {
    assert_eq!(Parameter::RandFloatFrom(vec![]).float(), Err(Error::EmptySet));
}

#[test]
fn float_of_another_kind_is_type_mismatch() {
    assert_eq!(Parameter::Int(1).float(), Err(Error::TypeMismatch));
    assert_eq!(Parameter::RandInt(1, 2).float(), Err(Error::TypeMismatch));
    assert_eq!(Parameter::RandIntFrom(vec![1]).float(), Err(Error::TypeMismatch));
    assert_eq!(Parameter::Id("a".to_string()).float(), Err(Error::TypeMismatch));
    assert_eq!(Parameter::RandFormat.float(), Err(Error::TypeMismatch));
}

#[test]
fn random_id_yields_one_member_and_reaches_each() {
    let parameter = Parameter::RandId(ids(&["a", "b", "c"]));
    let mut seen = [false; 3];
    for _ in 0..3000 {
        let found = parameter.id_seq().unwrap();
        assert_eq!(found.len(), 1);
        match found[0].as_str() {
            "a" => seen[0] = true,
            "b" => seen[1] = true,
            "c" => seen[2] = true,
            other => panic!("{} is not in the set", other),
        }
    }
    assert_eq!(seen, [true, true, true]);
}

#[test]
fn random_id_from_empty_set_is_empty_set() {
    assert_eq!(Parameter::RandId(vec![]).id_seq(), Err(Error::EmptySet));
}

#[test]
fn random_multi_id_yields_both_orders_and_always_two_distinct() {
    let parameter = Parameter::RandMulId(ids(&["op1", "op2"]), 2);
    let mut forward = false;
    let mut backward = false;
    for _ in 0..2000 {
        let found = parameter.id_seq().unwrap();
        assert_eq!(found.len(), 2);
        assert_ne!(found[0], found[1]);
        if found == ids(&["op1", "op2"]) {
            forward = true;
        } else if found == ids(&["op2", "op1"]) {
            backward = true;
        } else {
            panic!("unexpected {:?}", found);
        }
    }
    assert!(forward && backward);
}

#[test]
fn random_multi_id_yields_as_many_as_asked_for() {
    let parameter = Parameter::RandMulId(ids(&["a", "b", "c", "d"]), 2);
    let mut seen = [false; 4];
    for _ in 0..4000 {
        let found = parameter.id_seq().unwrap();
        assert_eq!(found.len(), 2);
        assert_ne!(found[0], found[1]);
        for id in found {
            let at = ["a", "b", "c", "d"].iter().position(|name| *name == id).unwrap();
            seen[at] = true;
        }
    }
    assert_eq!(seen, [true, true, true, true]);
}

#[test]
fn random_multi_id_of_none_is_empty() {
    assert_eq!(Parameter::RandMulId(ids(&["a", "b"]), 0).id_seq(), Ok(vec![]));
    assert_eq!(Parameter::RandMulId(vec![], 0).id_seq(), Ok(vec![]));
}

#[test]
fn random_multi_id_takes_each_position_once() {
    let parameter = Parameter::RandMulId(ids(&["a", "a", "b"]), 3);
    for _ in 0..200 {
        let mut found = parameter.id_seq().unwrap();
        found.sort();
        assert_eq!(found, ids(&["a", "a", "b"]));
    }
}

#[test]
fn random_multi_id_beyond_the_set_is_insufficient_elements() {
    assert_eq!(
        Parameter::RandMulId(ids(&["a", "b"]), 3).id_seq(),
        Err(Error::InsufficientElements)
    );
    assert_eq!(Parameter::RandMulId(vec![], 1).id_seq(), Err(Error::InsufficientElements));
}

#[test]
fn ids_of_another_kind_is_type_mismatch() {
    assert_eq!(Parameter::Int(1).id_seq(), Err(Error::TypeMismatch));
    assert_eq!(Parameter::Float(bits(1.0)).id_seq(), Err(Error::TypeMismatch));
    assert_eq!(Parameter::RandIntFrom(vec![1]).id_seq(), Err(Error::TypeMismatch));
    assert_eq!(Parameter::Percent(1).id_seq(), Err(Error::TypeMismatch));
    assert_eq!(Parameter::RandResizeFilter.id_seq(), Err(Error::TypeMismatch));
}
