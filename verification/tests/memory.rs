use stack_assembly::{Effect, Eval, Script, Value};

#[test]
fn memory_read() {
    {
        // `read` reads a word from memory at the given address, pushing it to the
        // stack. It does not modify the memory.

        let script = Script::compile("1 read 1 read");

        let mut eval = Eval::new(script);
        eval.memory.values[1] = Value::from(3);
        eval.run();

        assert_eq!(eval.effect, Some(Effect::OutOfOperators));
        assert_eq!(eval.operand_stack.to_u32_slice(), &[3, 3]);
    }
    {
        // `read` reads a word from memory at the given address, pushing it to the
        // stack. It does not modify the memory.

        let mut eval = Eval::start("1 read 1 read");
        eval.memory.values[1] = Value::from(3);
        eval.run();

        assert_eq!(eval.effect, Some(Effect::OutOfOperators));
        assert_eq!(eval.operand_stack.to_u32_slice(), &[3, 3]);
    }
}

#[test]
fn memory_read_triggers_effect_on_out_of_bounds_access() {
    {
        // If the address passed to `read` is out of bounds, that triggers the
        // respective effect.

        let script = Script::compile("1025 read");

        let mut eval = Eval::new(script);
        assert!(
            eval.memory.values.len() < 1025,
            "Test can't work, because it makes wrong assumption about memory size.",
        );

        eval.run();
        assert_eq!(eval.effect, Some(Effect::InvalidAddress));
        assert_eq!(eval.operand_stack.to_u32_slice(), Vec::<u32>::new());
    }
    {
        // If the address passed to `read` is out of bounds, that triggers the
        // respective effect.

        let mut eval = Eval::start("1025 read");
        assert!(
            eval.memory.values.len() < 1025,
            "Test can't work, because it makes wrong assumption about memory size.",
        );

        eval.run();
        assert_eq!(eval.effect, Some(Effect::InvalidAddress));
        assert_eq!(eval.operand_stack.to_u32_slice(), Vec::<u32>::new());
    }
}

#[test]
fn memory_write() {
    {
        // `write` writes a word to memory at the given address.

        let script = Script::compile("1 3 write");

        let mut eval = Eval::new(script);
        eval.run();

        assert_eq!(eval.effect, Some(Effect::OutOfOperators));
        assert_eq!(eval.operand_stack.to_u32_slice(), Vec::<u32>::new());
        assert_eq!(eval.memory.values[1], Value::from(3));
    }
    {
        // `write` writes a word to memory at the given address.

        let mut eval = Eval::start("1 3 write");
        eval.run();

        assert_eq!(eval.effect, Some(Effect::OutOfOperators));
        assert_eq!(eval.operand_stack.to_u32_slice(), Vec::<u32>::new());
        assert_eq!(eval.memory.values[1], Value::from(3));
    }
}

#[test]
fn memory_write_triggers_effect_on_out_of_bounds_access() {
    {
        // If the address passed to `write` is out of bounds, that triggers the
        // respective effect.

        let script = Script::compile("1025 3 write");

        let mut eval = Eval::new(script);
        assert!(
            eval.memory.values.len() < 1025,
            "Test can't work, because it makes wrong assumption about memory size.",
        );

        eval.run();
        assert_eq!(eval.effect, Some(Effect::InvalidAddress));
        assert_eq!(eval.operand_stack.to_u32_slice(), Vec::<u32>::new());
    }
    {
        // If the address passed to `write` is out of bounds, that triggers the
        // respective effect.

        let mut eval = Eval::start("1025 3 write");
        assert!(
            eval.memory.values.len() < 1025,
            "Test can't work, because it makes wrong assumption about memory size.",
        );

        eval.run();
        assert_eq!(eval.effect, Some(Effect::InvalidAddress));
        assert_eq!(eval.operand_stack.to_u32_slice(), Vec::<u32>::new());
    }
}
