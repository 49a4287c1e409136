use stack_assembly::{Effect, Eval, Script};

#[test]
fn assert_assert_consumes_input() {
    {
        // `assert` consumes one input. If that input is non-zero, it does nothing
        // else.

        let script = Script::compile("1 assert");

        let mut eval = Eval::new(script);
        let effect = *eval.run();

        assert_eq!(effect, Effect::OutOfOperators);
        assert_eq!(eval.operand_stack.to_i32_slice(), Vec::<i32>::new());
    }
    {
        // `assert` consumes one input. If that input is non-zero, it does nothing
        // else.

        let mut eval = Eval::start("1 assert");
        eval.run();

        assert_eq!(eval.effect, Some(Effect::OutOfOperators));
        assert_eq!(eval.operand_stack.to_i32_slice(), Vec::<i32>::new());
    }
}

#[test]
fn assert_assert_triggers_effect() {
    {
        // `assert` triggers an effect, if its input is zero.

        let script = Script::compile("0 assert");

        let mut eval = Eval::new(script);
        let effect = *eval.run();

        assert_eq!(effect, Effect::AssertionFailed);
        assert_eq!(eval.operand_stack.to_i32_slice(), Vec::<i32>::new());
    }
    {
        // `assert` triggers an effect, if its input is zero.

        let mut eval = Eval::start("0 assert");
        eval.run();

        assert_eq!(eval.effect, Some(Effect::AssertionFailed));
        assert_eq!(eval.operand_stack.to_i32_slice(), Vec::<i32>::new());
    }
}
