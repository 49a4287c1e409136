use stack_assembly::{Effect, Eval, Script};

#[test]
fn comparison_smaller_outputs_one_if_smaller() {
    {
        // The `<` operator outputs `1`, if its first input is smaller than the
        // second, treating both inputs as signed.

        let script = Script::compile("-1 0 <");

        let mut eval = Eval::new(script);
        let effect = *eval.run();

        assert_eq!(effect, Effect::OutOfOperators);
        assert_eq!(eval.operand_stack.to_u32_slice(), &[1]);
    }
    {
        // The `<` operator output `1`, if its first input is smaller than the
        // second, treating both inputs as signed.

        let mut eval = Eval::start("-1 0 <");
        eval.run();

        assert_eq!(eval.effect, Some(Effect::OutOfOperators));
        assert_eq!(eval.operand_stack.to_u32_slice(), &[1]);
    }
}

#[test]
fn comparison_smaller_outputs_zero_if_equal() {
    {
        // The `<` operator outputs `0`, if its two inputs are equal.

        let script = Script::compile("0 0 <");

        let mut eval = Eval::new(script);
        let effect = *eval.run();

        assert_eq!(effect, Effect::OutOfOperators);
        assert_eq!(eval.operand_stack.to_u32_slice(), &[0]);
    }
    {
        // The `<` operator output `0`, if its two inputs are equal.

        let mut eval = Eval::start("0 0 <");
        eval.run();

        assert_eq!(eval.effect, Some(Effect::OutOfOperators));
        assert_eq!(eval.operand_stack.to_u32_slice(), &[0]);
    }
}

#[test]
fn comparison_smaller_outputs_zero_if_larger() {
    {
        // The `<` operator outputs `0`, if its first outputs is larger then the
        // second, treating both inputs as signed.

        let script = Script::compile("0 -1 <");

        let mut eval = Eval::new(script);
        let effect = *eval.run();

        assert_eq!(effect, Effect::OutOfOperators);
        assert_eq!(eval.operand_stack.to_u32_slice(), &[0]);
    }
    {
        // The `<` operator output `0`, if its first outputs is larger then the
        // second, treating both inputs as signed.

        let mut eval = Eval::start("0 -1 <");
        eval.run();

        assert_eq!(eval.effect, Some(Effect::OutOfOperators));
        assert_eq!(eval.operand_stack.to_u32_slice(), &[0]);
    }
}

#[test]
fn comparison_smaller_equals_outputs_one_if_smaller() {
    {
        // The `<=` operator outputs `1`, if its first input is smaller than the
        // second, treating both inputs as signed.

        let script = Script::compile("-1 0 <=");

        let mut eval = Eval::new(script);
        let effect = *eval.run();

        assert_eq!(effect, Effect::OutOfOperators);
        assert_eq!(eval.operand_stack.to_u32_slice(), &[1]);
    }
    {
        // The `<=` operator output `1`, if its first input is smaller than the
        // second, treating both inputs as signed.

        let mut eval = Eval::start("-1 0 <=");
        eval.run();

        assert_eq!(eval.effect, Some(Effect::OutOfOperators));
        assert_eq!(eval.operand_stack.to_u32_slice(), &[1]);
    }
}

#[test]
fn comparison_smaller_equals_outputs_one_if_equal() {
    {
        // The `<=` operator outputs `1`, if its two inputs are equal.

        let script = Script::compile("0 0 <=");

        let mut eval = Eval::new(script);
        let effect = *eval.run();

        assert_eq!(effect, Effect::OutOfOperators);
        assert_eq!(eval.operand_stack.to_u32_slice(), &[1]);
    }
    {
        // The `<=` operator output `1`, if its two inputs are equal.

        let mut eval = Eval::start("0 0 <=");
        eval.run();

        assert_eq!(eval.effect, Some(Effect::OutOfOperators));
        assert_eq!(eval.operand_stack.to_u32_slice(), &[1]);
    }
}

#[test]
fn comparison_smaller_equals_outputs_zero_if_larger() {
    {
        // The `<=` operator outputs `0`, if its first outputs is larger then the
        // second, treating both inputs as signed.

        let script = Script::compile("0 -1 <=");

        let mut eval = Eval::new(script);
        let effect = *eval.run();

        assert_eq!(effect, Effect::OutOfOperators);
        assert_eq!(eval.operand_stack.to_u32_slice(), &[0]);
    }
    {
        // The `<=` operator output `0`, if its first outputs is larger then the
        // second, treating both inputs as signed.

        let mut eval = Eval::start("0 -1 <=");
        eval.run();

        assert_eq!(eval.effect, Some(Effect::OutOfOperators));
        assert_eq!(eval.operand_stack.to_u32_slice(), &[0]);
    }
}

#[test]
fn comparison_equals_outputs_one_if_equal() {
    {
        // The `=` operator outputs `1`, if its two inputs are equal.

        let script = Script::compile("3 3 =");

        let mut eval = Eval::new(script);
        let effect = *eval.run();

        assert_eq!(effect, Effect::OutOfOperators);
        assert_eq!(eval.operand_stack.to_u32_slice(), &[1]);
    }
    {
        // The `=` operator outputs `1`, if its two inputs are equal.

        let mut eval = Eval::start("3 3 =");
        eval.run();

        assert_eq!(eval.effect, Some(Effect::OutOfOperators));
        assert_eq!(eval.operand_stack.to_u32_slice(), &[1]);
    }
}

#[test]
fn comparison_equals_outputs_zero_if_not_equal() {
    {
        // The `=` operator outputs `0`, if its two inputs are not equal.

        let script = Script::compile("3 5 =");

        let mut eval = Eval::new(script);
        let effect = *eval.run();

        assert_eq!(effect, Effect::OutOfOperators);
        assert_eq!(eval.operand_stack.to_u32_slice(), &[0]);
    }
    {
        // The `=` operator outputs `0`, if its two inputs are not equal.

        let mut eval = Eval::start("3 5 =");
        eval.run();

        assert_eq!(eval.effect, Some(Effect::OutOfOperators));
        assert_eq!(eval.operand_stack.to_u32_slice(), &[0]);
    }
}

#[test]
fn comparison_larger_outputs_zero_if_smaller() {
    {
        // The `>` operator outputs `0`, if its first input is smaller than the
        // second, treating both inputs as signed.

        let script = Script::compile("-1 0 >");

        let mut eval = Eval::new(script);
        let effect = *eval.run();

        assert_eq!(effect, Effect::OutOfOperators);
        assert_eq!(eval.operand_stack.to_u32_slice(), &[0]);
    }
    {
        // The `>` operator output `0`, if its first input is smaller than the
        // second, treating both inputs as signed.

        let mut eval = Eval::start("-1 0 >");
        eval.run();

        assert_eq!(eval.effect, Some(Effect::OutOfOperators));
        assert_eq!(eval.operand_stack.to_u32_slice(), &[0]);
    }
}

#[test]
fn comparison_larger_outputs_zero_if_equal() {
    {
        // The `>` operator outputs `0`, if its two inputs are equal.

        let script = Script::compile("0 0 >");

        let mut eval = Eval::new(script);
        let effect = *eval.run();

        assert_eq!(effect, Effect::OutOfOperators);
        assert_eq!(eval.operand_stack.to_u32_slice(), &[0]);
    }
    {
        // The `>` operator output `0`, if its two inputs are equal.

        let mut eval = Eval::start("0 0 >");
        eval.run();

        assert_eq!(eval.effect, Some(Effect::OutOfOperators));
        assert_eq!(eval.operand_stack.to_u32_slice(), &[0]);
    }
}

#[test]
fn comparison_larger_outputs_one_if_larger() {
    {
        // The `>` operator outputs `1`, if its first outputs is larger then the
        // second, treating both inputs as signed.

        let script = Script::compile("0 -1 >");

        let mut eval = Eval::new(script);
        let effect = *eval.run();

        assert_eq!(effect, Effect::OutOfOperators);
        assert_eq!(eval.operand_stack.to_u32_slice(), &[1]);
    }
    {
        // The `>` operator output `1`, if its first outputs is larger then the
        // second, treating both inputs as signed.

        let mut eval = Eval::start("0 -1 >");
        eval.run();

        assert_eq!(eval.effect, Some(Effect::OutOfOperators));
        assert_eq!(eval.operand_stack.to_u32_slice(), &[1]);
    }
}

#[test]
fn comparison_larger_equals_outputs_zero_if_smaller() {
    {
        // The `>=` operator outputs `0`, if its first input is smaller than the
        // second, treating both inputs as signed.

        let script = Script::compile("-1 0 >=");

        let mut eval = Eval::new(script);
        let effect = *eval.run();

        assert_eq!(effect, Effect::OutOfOperators);
        assert_eq!(eval.operand_stack.to_u32_slice(), &[0]);
    }
    {
        // The `>=` operator output `0`, if its first input is smaller than the
        // second, treating both inputs as signed.

        let mut eval = Eval::start("-1 0 >=");
        eval.run();

        assert_eq!(eval.effect, Some(Effect::OutOfOperators));
        assert_eq!(eval.operand_stack.to_u32_slice(), &[0]);
    }
}

#[test]
fn comparison_larger_equals_outputs_one_if_equal() {
    {
        // The `>=` operator outputs `1`, if its two inputs are equal.

        let script = Script::compile("0 0 >=");

        let mut eval = Eval::new(script);
        let effect = *eval.run();

        assert_eq!(effect, Effect::OutOfOperators);
        assert_eq!(eval.operand_stack.to_u32_slice(), &[1]);
    }
    {
        // The `>=` operator output `1`, if its two inputs are equal.

        let mut eval = Eval::start("0 0 >=");
        eval.run();

        assert_eq!(eval.effect, Some(Effect::OutOfOperators));
        assert_eq!(eval.operand_stack.to_u32_slice(), &[1]);
    }
}

#[test]
fn comparison_larger_equals_outputs_one_if_larger() {
    {
        // The `>=` operator outputs `1`, if its first outputs is larger then the
        // second, treating both inputs as signed.

        let script = Script::compile("0 -1 >=");

        let mut eval = Eval::new(script);
        let effect = *eval.run();

        assert_eq!(effect, Effect::OutOfOperators);
        assert_eq!(eval.operand_stack.to_u32_slice(), &[1]);
    }
    {
        // The `>=` operator output `1`, if its first outputs is larger then the
        // second, treating both inputs as signed.

        let mut eval = Eval::start("0 -1 >=");
        eval.run();

        assert_eq!(eval.effect, Some(Effect::OutOfOperators));
        assert_eq!(eval.operand_stack.to_u32_slice(), &[1]);
    }
}
