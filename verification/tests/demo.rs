#[test]
fn it_works() {
    let result = code_gen_core::add(2, 2);
    assert_eq!(result, 4);
}
