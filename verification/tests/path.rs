#[test]
fn works() {}
