use chat_server::config::{get_ip_port_from_config, Config, ConfigError, Network, DEFAULT_PORT};
use chat_server::server::ChatServerResponseCommand;
use chat_server::tcp_server::{process_command, Delivery};

fn ids(names: &[&str]) -> Vec<String> {
    names.iter().map(|name| name.to_string()).collect()
}

#[test]
fn send_to_all_goes_to_every_connection() {
    let open = ids(&["a", "b", "c"]);
    assert_eq!(
        process_command(&open, ChatServerResponseCommand::SendToAll(b"x".to_vec())),
        Delivery::Send(ids(&["a", "b", "c"]), b"x".to_vec())
    );
    assert_eq!(
        process_command(&ids(&[]), ChatServerResponseCommand::SendToAll(b"x".to_vec())),
        Delivery::Send(vec![], b"x".to_vec())
    );
}

#[test]
fn send_to_all_except_spares_the_one() {
    let open = ids(&["a", "b", "c"]);
    assert_eq!(
        process_command(
            &open,
            ChatServerResponseCommand::SendToAllExcept("b".to_string(), b"x".to_vec())
        ),
        Delivery::Send(ids(&["a", "c"]), b"x".to_vec())
    );
    assert_eq!(
        process_command(
            &open,
            ChatServerResponseCommand::SendToAllExcept("z".to_string(), b"x".to_vec())
        ),
        Delivery::Send(ids(&["a", "b", "c"]), b"x".to_vec())
    );
}

#[test]
fn send_to_all_except_reaches_the_only_other_connection() {
    assert_eq!(
        process_command(
            &ids(&["a"]),
            ChatServerResponseCommand::SendToAllExcept("b".to_string(), b"x".to_vec())
        ),
        Delivery::Send(ids(&["a"]), b"x".to_vec())
    );
    assert_eq!(
        process_command(
            &ids(&["a", "b"]),
            ChatServerResponseCommand::SendToAllExcept("b".to_string(), b"x".to_vec())
        ),
        Delivery::Send(ids(&["a"]), b"x".to_vec())
    );
}

#[test]
fn send_to_all_except_with_only_the_excepted_connection_is_skipped() {
    assert_eq!(
        process_command(
            &ids(&["a"]),
            ChatServerResponseCommand::SendToAllExcept("a".to_string(), b"x".to_vec())
        ),
        Delivery::Nothing
    );
}

#[test]
fn send_to_all_except_with_no_connection() {
    assert_eq!(
        process_command(
            &ids(&[]),
            ChatServerResponseCommand::SendToAllExcept("a".to_string(), b"x".to_vec())
        ),
        Delivery::Send(vec![], b"x".to_vec())
    );
}

#[test]
fn send_to_some_skips_connections_that_are_gone() {
    let open = ids(&["a", "b", "c"]);
    assert_eq!(
        process_command(
            &open,
            ChatServerResponseCommand::SendToSome(ids(&["c", "gone", "a"]), b"x".to_vec())
        ),
        Delivery::Send(ids(&["c", "a"]), b"x".to_vec())
    );
    assert_eq!(
        process_command(
            &open,
            ChatServerResponseCommand::SendToSome(ids(&["gone"]), b"x".to_vec())
        ),
        Delivery::Send(vec![], b"x".to_vec())
    );
    assert_eq!(
        process_command(&open, ChatServerResponseCommand::SendToSome(vec![], b"x".to_vec())),
        Delivery::Send(vec![], b"x".to_vec())
    );
}

#[test]
fn disconnect_names_the_connection() {
    assert_eq!(
        process_command(&ids(&["a", "b"]), ChatServerResponseCommand::DisconnectUser("b".to_string())),
        Delivery::Disconnect("b".to_string())
    );
}

#[test]
fn configuration_defaults() {
    assert_eq!(DEFAULT_PORT, 6969);
    assert_eq!(
        get_ip_port_from_config(Err(ConfigError::FileNotFound)),
        ("127.0.0.1".to_string(), 6969)
    );
    assert_eq!(
        get_ip_port_from_config(Err(ConfigError::MalformedConfig("bad".to_string()))),
        ("127.0.0.1".to_string(), 6969)
    );
    assert_eq!(
        get_ip_port_from_config(Ok(Config { network: Network { ip: None, port: None } })),
        ("127.0.0.1".to_string(), 6969)
    );
}

#[test]
fn configuration_values_are_taken() {
    assert_eq!(
        get_ip_port_from_config(Ok(Config {
            network: Network { ip: Some("0.0.0.0".to_string()), port: Some(8080) }
        })),
        ("0.0.0.0".to_string(), 8080)
    );
    assert_eq!(
        get_ip_port_from_config(Ok(Config {
            network: Network { ip: Some("10.0.0.1".to_string()), port: None }
        })),
        ("10.0.0.1".to_string(), 6969)
    );
    assert_eq!(
        get_ip_port_from_config(Ok(Config { network: Network { ip: None, port: Some(1) } })),
        ("127.0.0.1".to_string(), 1)
    );
}

#[test]
fn configuration_error_in_words() {
    assert_eq!(
        ConfigError::FileNotFound.message(),
        "could not found the 'config.toml' config file"
    );
    assert_eq!(ConfigError::MalformedConfig("expected `=`".to_string()).message(), "expected `=`");
}
