use stack_assembly::{Effect, Eval, Script};

#[test]
fn arithmetic_add() {
    {
        // The `+` operator consumes two inputs and pushes their sum.

        let script = Script::compile("1 2 +");

        let mut eval = Eval::new(script);
        eval.run();

        assert_eq!(eval.effect, Some(Effect::OutOfOperators));
        assert_eq!(eval.operand_stack.to_i32_slice(), &[3]);
    }
    {
        // The `+` operator consumes two inputs and pushes their sum.

        let mut eval = Eval::start("1 2 +");
        eval.run();

        assert_eq!(eval.effect, Some(Effect::OutOfOperators));
        assert_eq!(eval.operand_stack.to_u32_slice(), vec![3]);
    }
}

#[test]
fn arithmetic_add_wraps_on_signed_overflow() {
    {
        // An addition wraps, if it overflows the range of a signed 32-bit integer.

        let script = Script::compile("2147483647 1 +");

        let mut eval = Eval::new(script);
        eval.run();

        assert_eq!(eval.effect, Some(Effect::OutOfOperators));
        assert_eq!(eval.operand_stack.to_i32_slice(), &[-2147483648]);
    }
    {
        // An addition that overflows the range of a signed 32-bit integer wraps.

        let mut eval = Eval::start("2147483647 1 +");
        eval.run();

        assert_eq!(eval.effect, Some(Effect::OutOfOperators));
        assert_eq!(eval.operand_stack.to_u32_slice(), vec![2147483648]);
    }
}

#[test]
fn arithmetic_add_wraps_on_unsigned_overflow() {
    {
        let script = Script::compile("-1 1 +");

        let mut eval = Eval::new(script);
        eval.run();

        assert_eq!(eval.effect, Some(Effect::OutOfOperators));
        assert_eq!(eval.operand_stack.to_i32_slice(), &[0]);
    }
    {
        let mut eval = Eval::start("-1 1 +");
        eval.run();

        assert_eq!(eval.effect, Some(Effect::OutOfOperators));
        assert_eq!(eval.operand_stack.to_u32_slice(), vec![0]);
    }
}

#[test]
fn arithmetic_subtract() {
    {
        // The `-` operator consumes two inputs and pushes their difference.

        let script = Script::compile("2 1 -");

        let mut eval = Eval::new(script);
        eval.run();

        assert_eq!(eval.effect, Some(Effect::OutOfOperators));
        assert_eq!(eval.operand_stack.to_i32_slice(), &[1]);
    }
    {
        // The `-` operator consumes two inputs and pushes their difference.

        let mut eval = Eval::start("2 1 -");
        eval.run();

        assert_eq!(eval.effect, Some(Effect::OutOfOperators));
        assert_eq!(eval.operand_stack.to_u32_slice(), vec![1]);
    }
}

#[test]
fn arithmetic_subtract_wraps_on_signed_overflow() {
    {
        // A subtraction wraps, if it overflows the range of a signed 32-bit
        // integer.

        let script = Script::compile("-2147483648 1 -");

        let mut eval = Eval::new(script);
        eval.run();

        assert_eq!(eval.effect, Some(Effect::OutOfOperators));
        assert_eq!(eval.operand_stack.to_i32_slice(), &[2147483647]);
    }
    {
        // A subtraction that overflows the range of a signed 32-bit integer wraps.

        let mut eval = Eval::start("-2147483648 1 -");
        eval.run();

        assert_eq!(eval.effect, Some(Effect::OutOfOperators));
        assert_eq!(eval.operand_stack.to_u32_slice(), vec![2147483647]);
    }
}

#[test]
fn arithmetic_subtract_wraps_on_unsigned_overflow() {
    {
        // A subtraction wraps, if it overflows the range of an unsigned 32-bit
        // integer.

        let script = Script::compile("0 1 -");

        let mut eval = Eval::new(script);
        eval.run();

        assert_eq!(eval.effect, Some(Effect::OutOfOperators));
        assert_eq!(eval.operand_stack.to_i32_slice(), &[-1]);
    }
    {
        // A subtraction that overflows the range of an unsigned 32-bit integer
        // wraps.

        let mut eval = Eval::start("0 1 -");
        eval.run();

        assert_eq!(eval.effect, Some(Effect::OutOfOperators));
        assert_eq!(eval.operand_stack.to_u32_slice(), vec![4294967295]);
    }
}

#[test]
fn arithmetic_multiply() {
    {
        // The `*` operator consumes two inputs and pushes their product.

        let script = Script::compile("2 3 *");

        let mut eval = Eval::new(script);
        eval.run();

        assert_eq!(eval.effect, Some(Effect::OutOfOperators));
        assert_eq!(eval.operand_stack.to_i32_slice(), &[6]);
    }
    {
        // The `*` operator consumes two inputs and pushes their product.

        let mut eval = Eval::start("2 3 *");
        eval.run();

        assert_eq!(eval.effect, Some(Effect::OutOfOperators));
        assert_eq!(eval.operand_stack.to_u32_slice(), vec![6]);
    }
}

#[test]
fn arithmetic_multiply_wraps_on_signed_overflow() {
    {
        // A multiplication wraps, if it overflows the range of a signed 32-bit
        // integer.

        let script = Script::compile("2147483647 2 *");

        let mut eval = Eval::new(script);
        eval.run();

        assert_eq!(eval.effect, Some(Effect::OutOfOperators));
        assert_eq!(eval.operand_stack.to_i32_slice(), &[-2]);
    }
    {
        // A multiplication that overflows the range of a signed 32-bit integer
        // wraps.

        let mut eval = Eval::start("2147483647 2 *");
        eval.run();

        assert_eq!(eval.effect, Some(Effect::OutOfOperators));
        assert_eq!(eval.operand_stack.to_u32_slice(), vec![4294967294]);
    }
}

#[test]
fn arithmetic_multiply_wraps_on_unsigned_overflow() {
    {
        let script = Script::compile("-1 2 *");

        let mut eval = Eval::new(script);
        eval.run();

        assert_eq!(eval.effect, Some(Effect::OutOfOperators));
        assert_eq!(eval.operand_stack.to_i32_slice(), &[-2]);
    }
    {
        let mut eval = Eval::start("-1 2 *");
        eval.run();

        assert_eq!(eval.effect, Some(Effect::OutOfOperators));
        assert_eq!(eval.operand_stack.to_u32_slice(), vec![4294967294]);
    }
}

#[test]
fn arithmetic_divide() {
    {
        // The `/` operator consumes two inputs and performs integer division,
        // pushing their quotient and the remainder.

        let script = Script::compile("5 2 /");

        let mut eval = Eval::new(script);
        eval.run();

        assert_eq!(eval.effect, Some(Effect::OutOfOperators));
        assert_eq!(eval.operand_stack.to_i32_slice(), &[2, 1]);
    }
    {
        // The `/` operator consumes two inputs and performs integer division,
        // pushing their quotient and the remainder.

        let mut eval = Eval::start("5 2 /");
        eval.run();

        assert_eq!(eval.effect, Some(Effect::OutOfOperators));
        assert_eq!(eval.operand_stack.to_u32_slice(), vec![2, 1]);
    }
}

#[test]
fn arithmetic_divide_treats_its_inputs_as_signed() {
    {
        // For most arithmetic operations, it makes no difference whether their
        // inputs are considered to be unsigned or signed in two's complement
        // representation. In terms of what happens with the bits, both are mostly
        // treated the same.
        //
        // Not so for division. Here, either case requires a dedicated algorithm
        // that won't work for the other. The `/` operator treats its inputs as
        // signed.

        let script = Script::compile("5 -2 /");

        let mut eval = Eval::new(script);
        eval.run();

        assert_eq!(eval.effect, Some(Effect::OutOfOperators));
        assert_eq!(eval.operand_stack.to_i32_slice(), &[-2, 1]);
    }
    {
        // For most arithmetic operations, it makes no difference whether their
        // inputs are considered to be unsigned or signed in two's complement
        // representation. In terms of what happens with the bits, both are mostly
        // treated the same.
        //
        // Not so for division. Here, either case requires a dedicated algorithm
        // that won't work for the other. The `/` operator treats its inputs as
        // signed.

        let mut eval = Eval::start("5 -2 /");
        eval.run();

        assert_eq!(eval.effect, Some(Effect::OutOfOperators));
        assert_eq!(eval.operand_stack.to_u32_slice(), vec![4294967294, 1]);
    }
}

#[test]
fn arithmetic_divide_by_zero_triggers_effect() {
    {
        // A division by zero cannot be reasonably handled and triggers the
        // respective effect.

        let script = Script::compile("1 0 /");

        let mut eval = Eval::new(script);
        eval.run();

        assert_eq!(eval.effect, Some(Effect::DivisionByZero));
        assert_eq!(eval.operand_stack.to_i32_slice(), Vec::<i32>::new());
    }
    {
        // A division by zero cannot be reasonably handled and triggers the
        // respective effect.

        let mut eval = Eval::start("1 0 /");
        eval.run();

        assert_eq!(eval.effect, Some(Effect::DivisionByZero));
        assert_eq!(eval.operand_stack.to_u32_slice(), Vec::<u32>::new());
    }
}

#[test]
fn arithmetic_divide_triggers_effect_on_overflow() {
    {
        // In contrast to other arithmetic operations, division overflows only in
        // one specific circumstance, and that circumstance is unlikely to be
        // intentional. Therefore it triggers an effect instead of wrapping.
        //
        // If it is intentional, the user can work around it quite easily, by
        // watching for the inputs that trigger the overflow and not doing the
        // division then.

        let script = Script::compile("-2147483648 -1 /");

        let mut eval = Eval::new(script);
        eval.run();

        assert_eq!(eval.effect, Some(Effect::IntegerOverflow));
        assert_eq!(eval.operand_stack.to_i32_slice(), Vec::<i32>::new());
    }
    {
        // In contrast to other arithmetic operations, division overflow only in one
        // specific circumstance, and that circumstance is unlikely to be
        // intentional. Therefore it triggers an effect.
        //
        // If it is, the user can work around it quite easily, by watching for the
        // inputs that trigger the overflow and not doing the division then.

        let mut eval = Eval::start("-2147483648 -1 /");
        eval.run();

        assert_eq!(eval.effect, Some(Effect::IntegerOverflow));
        assert_eq!(eval.operand_stack.to_u32_slice(), Vec::<u32>::new());
    }
}
