use netreactor::config::{Config, ConfigError, ServerConfig};

fn server(address: &str) -> ServerConfig {
    ServerConfig { address: String::from(address), endpoints: Vec::new() }
}

#[test]
fn empty_configuration_is_valid() {
    assert_eq!(Config { servers: Vec::new() }.validate(), Ok(()));
}

#[test]
fn configuration_with_good_addresses_is_valid() {
    let config = Config {
        servers: vec![server("127.0.0.1:18080"), server("0.0.0.0:80"), server("[::]:443")],
    };
    assert_eq!(config.validate(), Ok(()));
}

#[test]
fn endpoints_play_no_part_in_validation() {
    let config = Config {
        servers: vec![ServerConfig {
            address: String::from("127.0.0.1:18080"),
            endpoints: vec![String::from("/"), String::from(""), String::from("not a path")],
        }],
    };
    assert_eq!(config.validate(), Ok(()));
    assert_eq!(config.servers[0].endpoints.len(), 3);
    assert_eq!(config.servers[0].endpoints[0], "/");
}

#[test]
fn address_without_port_is_reported_with_its_position() {
    let config = Config { servers: vec![server("127.0.0.1:18080"), server("127.0.0.1")] };
    assert_eq!(config.validate(), Err(ConfigError::InvalidAddress { server: 1 }));
}

#[test]
fn first_bad_address_is_the_one_reported() {
    let config = Config {
        servers: vec![
            server("a:1"),
            server("b:2"),
            server("c:70000"),
            server("d"),
            server("e:5"),
        ],
    };
    assert_eq!(config.validate(), Err(ConfigError::InvalidAddress { server: 2 }));
}

#[test]
fn bad_address_in_first_place() {
    let config = Config { servers: vec![server(""), server("b:2")] };
    assert_eq!(config.validate(), Err(ConfigError::InvalidAddress { server: 0 }));
}
