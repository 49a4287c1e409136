use stack_assembly::{Effect, Eval, Script};

#[test]
fn comments_full_line_comment() {
    {
        // A line that starts with `#` is a comment and gets ignored.

        let script = Script::compile(
            "\
            # 3 5 8
            ",
        );

        let mut eval = Eval::new(script);
        let effect = *eval.run();

        assert_eq!(effect, Effect::OutOfOperators);
        assert_eq!(eval.operand_stack.to_u32_slice(), Vec::<u32>::new());
    }
    {
        // A line that starts with `#` is a comment and gets ignored.

        let script = "\
            # 3 5 8
        ";

        let mut eval = Eval::start(script);
        eval.run();

        assert_eq!(eval.effect, Some(Effect::OutOfOperators));
        assert_eq!(eval.operand_stack.to_u32_slice(), Vec::<u32>::new());
    }
}

#[test]
fn comments_end_of_line_comment() {
    {
        // If a `#` appears somewhere within a line, everything from there on gets
        // ignored.

        let script = Script::compile("3 # 5 8");

        let mut eval = Eval::new(script);
        let effect = *eval.run();

        assert_eq!(effect, Effect::OutOfOperators);
        assert_eq!(eval.operand_stack.to_u32_slice(), &[3]);
    }
    {
        // If a `#` appears somewhere within a line, everything from there on gets
        // ignored.

        let mut eval = Eval::start("3 # 5 8");
        eval.run();

        assert_eq!(eval.effect, Some(Effect::OutOfOperators));
        assert_eq!(eval.operand_stack.to_u32_slice(), &[3]);
    }
}

#[test]
fn comment_without_whitespace() {
    // Any `#` introduces a comment, even if not delineated by whitespace.

    let script = Script::compile("3 #5 8");

    let mut eval = Eval::new(script);
    let effect = *eval.run();

    assert_eq!(effect, Effect::OutOfOperators);
    assert_eq!(eval.operand_stack.to_u32_slice(), &[3]);
}
