use stack_assembly::{Operator, Script};

#[derive(Debug, PartialEq)]
enum Expected {
    Label(String),
    Reference(String),
    Integer(u32),
    Identifier(String),
}

fn expected(token: &str) -> Expected {
    if token.len() >= 2 && token.ends_with(':') {
        return Expected::Label(token[..token.len() - 1].to_string());
    }
    if let Some(name) = token.strip_prefix('@') {
        return Expected::Reference(name.to_string());
    }
    if let Some(digits) = token.strip_prefix("0x") {
        if let Ok(number) = i32::from_str_radix(digits, 16) {
            return Expected::Integer(u32::from_le_bytes(number.to_le_bytes()));
        }
        if let Ok(number) = u32::from_str_radix(digits, 16) {
            return Expected::Integer(number);
        }
    }
    if let Ok(number) = token.parse::<i32>() {
        return Expected::Integer(u32::from_le_bytes(number.to_le_bytes()));
    }
    if let Ok(number) = token.parse::<u32>() {
        return Expected::Integer(number);
    }
    Expected::Identifier(token.to_string())
}

fn compiled(token: &str) -> Expected {
    let script = Script::compile(token);
    let operators = script.operators();
    match operators.as_slice() {
        [] => match script.resolve_reference(&token[..token.len() - 1]) {
            Ok(index) => {
                assert_eq!(index.position(), 0);
                Expected::Label(token[..token.len() - 1].to_string())
            },
            Err(_) => panic!("{token:?} gave neither an operator nor a label"),
        },
        [(index, operator)] => {
            assert_eq!(index.position(), 0);
            match operator {
                Operator::Identifier { value } => Expected::Identifier(value.clone()),
                Operator::Integer { value } => Expected::Integer(value.to_u32()),
                Operator::Reference { name } => Expected::Reference(name.clone()),
            }
        },
        _ => panic!("{token:?} gave more than one operator"),
    }
}

#[test]
fn short_tokens_are_what_the_standard_parsers_make_of_them() {
    let alphabet = ['0', '1', '9', 'a', 'F', 'g', 'x', 'X', '+', '-', '_', ':', '@', 'é'];
    let mut tokens = vec![String::new()];
    for _ in 0..4 {
        let mut longer = Vec::new();
        for token in &tokens {
            for character in alphabet {
                let mut next = token.clone();
                next.push(character);
                longer.push(next);
            }
        }
        for token in &longer {
            assert_eq!(compiled(token), expected(token), "{token:?}");
        }
        tokens = longer;
    }
}

#[test]
fn numbers_at_the_limits_are_what_the_standard_parsers_make_of_them() {
    let limits: [i64; 9] = [
        0,
        1,
        0x7fff_fffe,
        0x7fff_ffff,
        0x8000_0000,
        0x8000_0001,
        0xffff_fffe,
        0xffff_ffff,
        0x1_0000_0000,
    ];
    for limit in limits {
        for sign in ["", "+", "-"] {
            for zeros in ["", "0", "000000000000000000000000000000000000"] {
                let decimal = format!("{sign}{zeros}{limit}");
                assert_eq!(compiled(&decimal), expected(&decimal), "{decimal:?}");
                let lower = format!("0x{sign}{zeros}{limit:x}");
                assert_eq!(compiled(&lower), expected(&lower), "{lower:?}");
                let upper = format!("0x{sign}{zeros}{limit:X}");
                assert_eq!(compiled(&upper), expected(&upper), "{upper:?}");
                let long = format!("{sign}{zeros}{limit}0");
                assert_eq!(compiled(&long), expected(&long), "{long:?}");
            }
        }
    }
}
