//! Sums, to see that the tests run.

use ip::addr::Ipv4Addr;

#[test]
fn it_works() {
    let result = 2 + 2;
    assert_eq!(result, 4);
}

#[test]
fn lib_it_works() {
    let result = 2 + 2;
    assert_eq!(result, 4);
}

#[test]
fn addresses_have_four_octets() {
    let addr = Ipv4Addr::new(1, 2, 3, 4);
    assert_eq!(addr.octets(), [1, 2, 3, 4]);
}
