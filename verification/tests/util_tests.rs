use bake::arg_parser::{get_args_with, parse_serve, ParsedArgs};
use bake::text::{decimal_string, parse_usize};
use bake::util::ordered_map::OrderedMap;
use bake::util::platform_specific::Platform;
use bake::util::url::{generate_installation_link, standard_link};

fn args(list: &[&str]) -> Vec<String> {
    let mut v = vec!["bake".to_string()];
    v.extend(list.iter().map(|x| x.to_string()));
    v
}

#[test]
fn serve_default_port() {
    assert_eq!(get_args_with(args(&["serve"])), ParsedArgs::Serve(8000));
}

#[test]
fn serve_port() {
    assert_eq!(
        get_args_with(args(&["serve", "--port", "8080"])),
        ParsedArgs::Serve(8080)
    );
    assert_eq!(
        get_args_with(args(&["serve", "--port=1234"])),
        ParsedArgs::Serve(1234)
    );
}

#[test]
fn serve_invalid() {
    assert_eq!(get_args_with(args(&["serve", "junk"])), ParsedArgs::Invalid);
    assert_eq!(
        get_args_with(args(&["serve", "--port", "not_a_number"])),
        ParsedArgs::Invalid
    );
}

#[test]
fn other_arguments() {
    assert_eq!(get_args_with(args(&[])), ParsedArgs::Nothing);
    assert_eq!(get_args_with(args(&["-l"])), ParsedArgs::ShowTasks);
    assert_eq!(get_args_with(args(&["--list"])), ParsedArgs::ShowTasks);
    assert_eq!(get_args_with(args(&["--version"])), ParsedArgs::Version);
    assert_eq!(get_args_with(args(&["--update"])), ParsedArgs::Update);
    assert_eq!(get_args_with(args(&["--help"])), ParsedArgs::Help);
    assert_eq!(get_args_with(args(&["--nope"])), ParsedArgs::Invalid);
    assert_eq!(
        get_args_with(args(&["build", "-ni"])),
        ParsedArgs::Command("build".to_string(), true)
    );
    assert_eq!(
        get_args_with(args(&["2", "x"])),
        ParsedArgs::Command("2".to_string(), false)
    );
    assert_eq!(
        get_args_with(args(&["-x"])),
        ParsedArgs::Command("-x".to_string(), false)
    );
}

#[test]
fn serve_port_edge_cases() {
    let rest = |l: &[&str]| l.iter().map(|x| x.to_string()).collect::<Vec<_>>();
    assert_eq!(parse_serve(&rest(&["--port", "65535"])), ParsedArgs::Serve(65535));
    assert_eq!(parse_serve(&rest(&["--port", "65536"])), ParsedArgs::Invalid);
    assert_eq!(parse_serve(&rest(&["--port=+7"])), ParsedArgs::Serve(7));
    assert_eq!(parse_serve(&rest(&["--port"])), ParsedArgs::Invalid);
    assert_eq!(parse_serve(&rest(&["--port=1", "--port", "2"])), ParsedArgs::Serve(2));
    assert_eq!(parse_serve(&rest(&["--port="])), ParsedArgs::Invalid);
}

#[test]
fn ordered_map_keeps_order_and_last_value() {
    let mut m: OrderedMap<i32> = OrderedMap::new();
    m.insert("a".to_string(), 1);
    m.insert("b".to_string(), 2);
    m.insert("a".to_string(), 3);
    assert_eq!(m.get(&"a".to_string()), Some(&3));
    assert_eq!(m.get(&"b".to_string()), Some(&2));
    assert_eq!(m.get(&"c".to_string()), None);
    assert_eq!(m.get_all(), &[1, 2, 3]);
    assert_eq!(m.get_at(0), Some(&1));
    assert_eq!(m.get_at(3), None);
    let d: OrderedMap<i32> = OrderedMap::default();
    assert!(d.get_all().is_empty());
}

#[test]
fn links() {
    assert_eq!(standard_link("example.com"), "http://example.com");
    assert_eq!(standard_link("https://x.org"), "https://x.org");
    assert_eq!(standard_link("http://x.org"), "http://x.org");
    assert_eq!(standard_link(&standard_link("a.b")), standard_link("a.b"));
    assert_eq!(
        generate_installation_link("rust", Platform::Linux),
        "https://google.com/search?q=how+to+install+rust+on+Linux"
    );
}

#[test]
fn numbers() {
    assert_eq!(decimal_string(0), "0");
    assert_eq!(decimal_string(1234567890), "1234567890");
    assert_eq!(parse_usize("+12"), Some(12));
    assert_eq!(parse_usize("-1"), None);
    assert_eq!(parse_usize(""), None);
    assert_eq!(parse_usize("18446744073709551616"), None);
}
