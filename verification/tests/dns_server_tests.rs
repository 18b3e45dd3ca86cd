use alltools::dns::server::{default_server, select_server, system_server, Adapter, ServerAddress};

fn adapter(is_up: bool, is_ethernet: bool, dns_servers: Vec<ServerAddress>) -> Adapter {
    Adapter { is_up, is_ethernet, dns_servers }
}

#[test]
fn default_is_public_resolver() {
    assert_eq!(ServerAddress::V4(8, 8, 8, 8), default_server());
    assert_eq!(ServerAddress::V4(8, 8, 8, 8), system_server(&vec![]));
}

#[test]
fn first_fitting_server_is_chosen() {
    let adapters = vec![
        adapter(false, true, vec![ServerAddress::V4(10, 0, 0, 1)]),
        adapter(true, false, vec![ServerAddress::V4(10, 0, 0, 2)]),
        adapter(true, true, vec![]),
        adapter(true, true, vec![ServerAddress::V6, ServerAddress::V6]),
        adapter(
            true,
            true,
            vec![ServerAddress::V6, ServerAddress::V4(192, 168, 1, 1), ServerAddress::V4(1, 1, 1, 1)],
        ),
        adapter(true, true, vec![ServerAddress::V4(10, 0, 0, 3)]),
    ];
    assert_eq!(Some((4, 1)), select_server(&adapters));
    assert_eq!(ServerAddress::V4(192, 168, 1, 1), system_server(&adapters));
}

#[test]
fn nothing_fits() {
    let adapters = vec![
        adapter(false, false, vec![ServerAddress::V4(10, 0, 0, 1)]),
        adapter(false, true, vec![ServerAddress::V4(10, 0, 0, 1)]),
        adapter(true, false, vec![ServerAddress::V4(10, 0, 0, 2)]),
        adapter(true, true, vec![ServerAddress::V6]),
    ];
    assert_eq!(None, select_server(&adapters));
    assert_eq!(ServerAddress::V4(8, 8, 8, 8), system_server(&adapters));
    assert_eq!(None, select_server(&vec![]));
}
