use port_scanner::network::{ipv4, NetworkRange};
use port_scanner::target::{build_targets, Target, TargetSetBuilder};

fn target(a: u8, b: u8, c: u8, d: u8, port: u16) -> Target {
    Target { address: ipv4(a, b, c, d), port }
}

#[test]
fn two_addresses_and_two_ports() {
    let addresses = vec![ipv4(10, 0, 0, 1), ipv4(10, 0, 0, 2)];
    let ports = vec![22, 80];
    let targets = build_targets(&addresses, &ports);
    assert_eq!(targets.len(), 4);
    for expected in [
        target(10, 0, 0, 1, 22),
        target(10, 0, 0, 1, 80),
        target(10, 0, 0, 2, 22),
        target(10, 0, 0, 2, 80),
    ] {
        assert_eq!(targets.iter().filter(|t| **t == expected).count(), 1);
    }
}

#[test]
fn targets_come_address_by_address() {
    let addresses = vec![ipv4(10, 0, 0, 1), ipv4(10, 0, 0, 2)];
    let ports = vec![22, 80];
    assert_eq!(
        build_targets(&addresses, &ports),
        vec![
            target(10, 0, 0, 1, 22),
            target(10, 0, 0, 1, 80),
            target(10, 0, 0, 2, 22),
            target(10, 0, 0, 2, 80),
        ]
    );
}

#[test]
fn target_count_is_addresses_times_ports() {
    for address_count in 0usize..6 {
        for port_count in 0usize..5 {
            let addresses: Vec<u32> = (0..address_count as u32).collect();
            let ports: Vec<u16> = (0..port_count as u16).collect();
            let targets = build_targets(&addresses, &ports);
            assert_eq!(targets.len(), address_count * port_count);
        }
    }
}

#[test]
fn target_at_its_place() {
    let addresses = vec![7, 8, 9];
    let ports = vec![1, 2, 3, 4];
    let targets = build_targets(&addresses, &ports);
    for (i, address) in addresses.iter().enumerate() {
        for (j, port) in ports.iter().enumerate() {
            assert_eq!(
                targets[i * ports.len() + j],
                Target { address: *address, port: *port }
            );
        }
    }
}

#[test]
fn nothing_is_merged() {
    let addresses = vec![5, 5];
    let ports = vec![80, 80];
    assert_eq!(
        build_targets(&addresses, &ports),
        vec![Target { address: 5, port: 80 }; 4]
    );
}

#[test]
fn no_ports_no_targets() {
    assert_eq!(build_targets(&vec![1, 2, 3], &vec![]), vec![]);
}

#[test]
fn no_addresses_no_targets() {
    assert_eq!(build_targets(&vec![], &vec![22, 80]), vec![]);
}

#[test]
fn building_twice_gives_the_same_targets() {
    let addresses = vec![ipv4(10, 0, 0, 1), ipv4(10, 0, 0, 2)];
    let ports = vec![22, 80, 443];
    assert_eq!(
        build_targets(&addresses, &ports),
        build_targets(&addresses, &ports)
    );
}

#[test]
fn builder_hands_out_what_build_targets_lists() {
    let range = NetworkRange::new(ipv4(10, 0, 0, 0), 29).unwrap();
    let ports = vec![22, 80, 443];
    let mut builder = TargetSetBuilder::new(range, ports.clone());
    let mut seen = Vec::new();
    while let Some(target) = builder.next() {
        seen.push(target);
    }
    assert_eq!(seen.len(), 24);
    assert_eq!(seen, build_targets(&range.expand(), &ports));
    assert_eq!(builder.next(), None);
}

#[test]
fn builder_on_a_pair_of_addresses() {
    let range = NetworkRange::new(ipv4(10, 0, 0, 2), 31).unwrap();
    let mut builder = TargetSetBuilder::new(range, vec![22, 80]);
    assert_eq!(builder.next(), Some(target(10, 0, 0, 2, 22)));
    assert_eq!(builder.next(), Some(target(10, 0, 0, 2, 80)));
    assert_eq!(builder.next(), Some(target(10, 0, 0, 3, 22)));
    assert_eq!(builder.next(), Some(target(10, 0, 0, 3, 80)));
    assert_eq!(builder.next(), None);
    assert_eq!(builder.next(), None);
}

#[test]
fn builder_without_ports_is_empty() {
    let range = NetworkRange::new(ipv4(10, 0, 0, 0), 24).unwrap();
    let mut builder = TargetSetBuilder::new(range, vec![]);
    assert_eq!(builder.next(), None);
}

#[test]
fn builder_reaches_the_last_address() {
    let range = NetworkRange::new(u32::MAX, 32).unwrap();
    let mut builder = TargetSetBuilder::new(range, vec![65535]);
    assert_eq!(builder.next(), Some(Target { address: u32::MAX, port: 65535 }));
    assert_eq!(builder.next(), None);
}

#[test]
fn endpoint_as_text() {
    assert_eq!(target(10, 0, 0, 1, 80).endpoint(), "10.0.0.1:80");
    assert_eq!(target(192, 168, 100, 254, 8080).endpoint(), "192.168.100.254:8080");
    assert_eq!(target(0, 0, 0, 0, 0).endpoint(), "0.0.0.0:0");
    assert_eq!(target(255, 255, 255, 255, 65535).endpoint(), "255.255.255.255:65535");
    assert_eq!(target(127, 0, 0, 1, 22).endpoint(), "127.0.0.1:22");
}
