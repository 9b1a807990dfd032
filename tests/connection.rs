use stratum_server::ban_manager::{IpAddress, SocketAddress};
use stratum_server::connection::{classify_line, parse_proxy_preface, LineAction};
use stratum_server::error::Error;

#[test]
fn proxy_preface_gives_source_address() {
    let a = parse_proxy_preface("PROXY TCP4 92.118.161.17 172.20.42.228 55867 8080\r\n").unwrap();
    assert_eq!(a, SocketAddress { ip: IpAddress::v4(92, 118, 161, 17), port: 55867 });
}

#[test]
fn malformed_proxy_preface_is_refused() {
    for line in [
        "",
        "PROXY TCP4 92.118.161.17 172.20.42.228 55867\r\n",
        "PROXI TCP4 1.2.3.4 5.6.7.8 1 2",
        "PROXY TCP4 1.2.3 5.6.7.8 1 2",
        "PROXY TCP4 1.2.3.256 5.6.7.8 1 2",
        "PROXY TCP4 1.2.3.4 5.6.7.8 65536 2",
        "PROXY TCP4 1.2.3.4 5.6.7.8 x 2",
        "PROXY  TCP4 1.2.3.4 5.6.7.8 1 2",
    ] {
        assert!(matches!(parse_proxy_preface(line), Err(Error::BrokenProxyPreface)), "{}", line);
    }
}

#[test]
fn lines_are_classified() {
    assert!(matches!(classify_line(0, true, ""), Ok(LineAction::EndOfStream)));
    assert!(matches!(classify_line(0, false, ""), Err(Error::PeerResetConnection)));
    assert!(matches!(classify_line(2, true, " \n"), Ok(LineAction::Skip)));
    match classify_line(30, true, "  {\"id\":1,\"method\":\"auth\"}\r\n") {
        Ok(LineAction::Frame(f)) => assert_eq!(f, "{\"id\":1,\"method\":\"auth\"}"),
        other => panic!("unexpected {:?}", other),
    }
}

#[test]
fn proxy_preface_with_ipv6_source() {
    let a = parse_proxy_preface("PROXY TCP6 2001:db8::1 ::1 4000 80\r\n").unwrap();
    assert_eq!(
        a,
        SocketAddress { ip: IpAddress::V6(0x2001_0db8_0000_0000_0000_0000_0000_0001), port: 4000 }
    );
    let b = parse_proxy_preface("PROXY TCP6 1:2:3:4:5:6:7:FFFF ::1 1 2").unwrap();
    assert_eq!(b.ip, IpAddress::V6(0x0001_0002_0003_0004_0005_0006_0007_ffff));
    let c = parse_proxy_preface("PROXY TCP6 :: ::1 1 2").unwrap();
    assert_eq!(c.ip, IpAddress::V6(0));
    for line in [
        "PROXY TCP6 1:::2 ::1 1 2",
        "PROXY TCP6 1::2::3 ::1 1 2",
        "PROXY TCP6 1:2:3:4:5:6:7 ::1 1 2",
        "PROXY TCP6 12345::1 ::1 1 2",
        "PROXY TCP6 1:2:3:4::5:6:7:8 ::1 1 2",
    ] {
        assert!(matches!(parse_proxy_preface(line), Err(Error::BrokenProxyPreface)), "{}", line);
    }
}
