use f750c::compile;

const TEST_SOURCE: &str = "\
.data
const limit: qword 10
greeting: \"hello\", byte 0

_start:
    mov a64, &const limit
    @if a64, 5, jg
        push a64
    @else
        push 0
    @end
";

#[test]
fn test_compile() {
    let res = compile(TEST_SOURCE);
    if let Err(e) = res {
        panic!("Compilation failed: {:?}", e);
    }
}
