use brotab::client::{client_listing, create_clients, BrowserClient};
use brotab::editor::get_editor_command;
use brotab::listing::ListError;
use brotab::ports::{get_available_ports, live_ports, probe_ports, BASE_PORT, WINDOW};

#[test]
fn dead_ports_are_left_out() {
    let mut reachable = vec![false; WINDOW];
    reachable[0] = true;
    reachable[3] = true;
    let live = get_available_ports(&reachable);
    assert_eq!(live, vec![4625, 4628]);
    assert_eq!(
        client_listing(&live).unwrap(),
        "a.\tlocalhost:4625\nb.\tlocalhost:4628"
    );
}

#[test]
fn probes_stay_inside_the_window() {
    let ports = probe_ports(BASE_PORT, WINDOW);
    assert_eq!(ports, (4625..4635).collect::<Vec<u16>>());
    assert!(!ports.contains(&4635));
    let all = get_available_ports(&vec![true; WINDOW]);
    assert_eq!(all.len(), 10);
    assert_eq!(*all.last().unwrap(), 4634);
}

#[test]
fn no_live_port_gives_no_client() {
    let live = get_available_ports(&vec![false; WINDOW]);
    assert!(live.is_empty());
    assert_eq!(client_listing(&live).unwrap(), "");
}

#[test]
fn probe_window_reaches_the_last_port() {
    assert_eq!(probe_ports(65530, 6), vec![65530, 65531, 65532, 65533, 65534, 65535]);
    assert_eq!(probe_ports(80, 0), Vec::<u16>::new());
}

#[test]
fn live_ports_from_any_base() {
    assert_eq!(live_ports(9000, &vec![false, true, true]), vec![9001, 9002]);
}

#[test]
fn clients_keep_port_order() {
    let clients = create_clients(&vec![4630, 4626]);
    assert_eq!(clients, vec![BrowserClient::new(4630), BrowserClient::new(4626)]);
    assert_eq!(clients[0].port, 4630);
}

#[test]
fn tab_list_address() {
    assert_eq!(
        BrowserClient::new(4625).list_tabs_url(),
        "http://localhost:4625/list_tabs"
    );
    assert_eq!(BrowserClient::new(0).list_tabs_url(), "http://localhost:0/list_tabs");
    assert_eq!(
        BrowserClient::new(65535).list_tabs_url(),
        "http://localhost:65535/list_tabs"
    );
}

#[test]
fn client_listing_beyond_the_letters_is_an_error() {
    let ports: Vec<u16> = (5000..5027).collect();
    assert!(matches!(
        client_listing(&ports),
        Err(ListError::TooManyClients { count: 27 })
    ));
}

#[test]
fn editor_falls_back_to_the_default() {
    assert_eq!(get_editor_command(None), "nvim");
    assert_eq!(get_editor_command(Some("vim".to_string())), "vim");
}
