use netbench::{should_recv, should_send, Direction, Role};

#[test]
fn test_should_send() {
    let role = Role::Client;
    let direction = Direction::ClientToServer;
    assert!(should_send(direction, role));

    let role = Role::Server;
    let direction = Direction::ClientToServer;
    assert!(!should_send(direction, role));

    let role = Role::Client;
    let direction = Direction::ServerToClient;
    assert!(!should_send(direction, role));

    let role = Role::Server;
    let direction = Direction::ServerToClient;
    assert!(should_send(direction, role));

    let role = Role::Client;
    let direction = Direction::Bidirectional;
    assert!(should_send(direction, role));

    let role = Role::Server;
    let direction = Direction::Bidirectional;
    assert!(should_send(direction, role));
}

#[test]
fn test_should_recv() {
    let role = Role::Client;
    let direction = Direction::ClientToServer;
    assert!(!should_recv(direction, role));

    let role = Role::Server;
    let direction = Direction::ClientToServer;
    assert!(should_recv(direction, role));

    let role = Role::Client;
    let direction = Direction::ServerToClient;
    assert!(should_recv(direction, role));

    let role = Role::Server;
    let direction = Direction::ServerToClient;
    assert!(!should_recv(direction, role));

    let role = Role::Client;
    let direction = Direction::Bidirectional;
    assert!(should_recv(direction, role));

    let role = Role::Server;
    let direction = Direction::Bidirectional;
    assert!(should_recv(direction, role));
}
