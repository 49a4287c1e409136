use stack_assembly::Script;

#[test]
fn map_operator_to_source() {
    let source = "0 loop: 1 + @loop jump";
    let script = Script::compile(source);

    let operators = script
        .operators()
        .into_iter()
        .map(|(operator, _)| {
            let Ok(range) = script.map_operator_to_source(&operator) else {
                unreachable!(
                    "Using `OperatorIndex` that definitely refers to an \
                    operator, as it was returned by `Script::operators`."
                );
            };
            &source[range]
        })
        .collect::<Vec<_>>();

    assert_eq!(operators, vec!["0", "1", "+", "@loop", "jump"]);
}
