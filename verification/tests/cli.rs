use wg_waybar::cli::{
    interface_name_from_stem, unnamed_status, Cli, Commands, DEFAULT_PORT, DEFAULT_SIGNAL,
};
use wg_waybar::error::Error;
use wg_waybar::status::{Status, StatusOutput};

fn name_of(path: &str) -> Result<String, Error> {
    Cli::new(path.to_string()).interface_name()
}

#[test]
fn options_have_defaults() {
    let cli = Cli::new("/etc/wireguard/wg0.conf".to_string());
    assert_eq!(
        cli,
        Cli {
            config: "/etc/wireguard/wg0.conf".to_string(),
            signal: 9,
            debug: false,
            state_filename: "status.json".to_string(),
            port: 40077,
            command: None,
        }
    );
    assert_eq!(DEFAULT_SIGNAL, 9);
    assert_eq!(DEFAULT_PORT, 40077);
    assert_eq!(Some(Commands::Toggle), Some(Commands::Toggle));
}

#[test]
fn interface_is_named_after_the_file() {
    assert_eq!(name_of("/etc/wireguard/wg0.conf"), Ok("wg0".to_string()));
    assert_eq!(name_of("wg0"), Ok("wg0".to_string()));
    assert_eq!(name_of("./vpn/home.office.conf"), Ok("home.office".to_string()));
    assert_eq!(name_of("dir/.hidden"), Ok(".hidden".to_string()));
}

#[test]
fn path_without_a_file_name_is_an_invalid_format() {
    let expected = Error::InvalidFormat { message: "Invalid config file name".to_string() };
    assert_eq!(name_of(""), Err(expected.clone()));
    assert_eq!(name_of("/"), Err(expected.clone()));
    assert_eq!(name_of(".."), Err(expected.clone()));
    assert_eq!(name_of("/etc/.."), Err(expected.clone()));
    assert_eq!(expected.to_string(), "Invalid format: Invalid config file name");
}

#[test]
fn a_path_that_names_no_interface_is_shown_as_an_error() {
    let e = Error::InvalidFormat { message: "Invalid config file name".to_string() };
    assert_eq!(
        unnamed_status(&e),
        StatusOutput {
            text: "VPN: Error".to_string(),
            status: Status::Error,
            tooltip: "Failed to parse interface name: Invalid format: Invalid config file name"
                .to_string(),
        }
    );
}

#[test]
fn stem_names_the_interface() {
    assert_eq!(interface_name_from_stem(Some("wg0".to_string())), Ok("wg0".to_string()));
    assert_eq!(interface_name_from_stem(Some(String::new())), Ok(String::new()));
    assert_eq!(
        interface_name_from_stem(None),
        Err(Error::InvalidFormat { message: "Invalid config file name".to_string() })
    );
}
