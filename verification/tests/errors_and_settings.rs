use permguard_trustplane::cli::{Cli, ProviderChoice};
use permguard_trustplane::clock::{now_seconds, period, seconds_from};
use permguard_trustplane::error::{status_of, Error, ErrorKind, StatusCode};
use permguard_trustplane::text::{bytes_eq, clone_strings, join2, str_eq};
use permguard_trustplane::version;
use permguard_trustplane::wire::{
    put_bytes, put_text, put_u32, put_u64, read_bytes, read_text, read_u32, read_u64,
    text_is_short,
};

fn each_error() -> Vec<(Error, ErrorKind)> {
    vec![
        (Error::Config("c".to_string()), ErrorKind::Config),
        (Error::NotFound("n".to_string()), ErrorKind::NotFound),
        (Error::Invalid("i".to_string()), ErrorKind::Invalid),
        (Error::Crypto("k".to_string()), ErrorKind::Crypto),
        (Error::Io(std::io::Error::new(std::io::ErrorKind::Other, "disk")), ErrorKind::Io),
        (Error::Transport("t".to_string()), ErrorKind::Transport),
        (Error::Internal("x".to_string()), ErrorKind::Internal),
    ]
}

#[test]
fn error_texts() {
    let texts: Vec<String> = each_error().iter().map(|(e, _)| e.message()).collect();
    assert_eq!(
        texts,
        vec![
            "configuration error: c",
            "not found: n",
            "invalid: i",
            "crypto error: k",
            "io error: disk",
            "transport error: t",
            "internal error: x",
        ]
    );
    for (e, kind) in each_error() {
        assert_eq!(e.kind(), kind);
    }
}

#[test]
fn error_texts_for_callers_hide_the_inside() {
    let texts: Vec<String> = each_error().iter().map(|(e, _)| e.public_message()).collect();
    assert_eq!(
        texts,
        vec![
            "configuration error: c",
            "not found: n",
            "invalid: i",
            "crypto error",
            "io error",
            "transport error",
            "internal error",
        ]
    );
}

#[test]
fn error_statuses() {
    let http: Vec<u16> = each_error().iter().map(|(e, _)| e.http_status()).collect();
    assert_eq!(http, vec![500, 404, 400, 500, 500, 500, 500]);
    let by_kind: Vec<u16> = each_error().iter().map(|(_, kind)| status_of(*kind)).collect();
    assert_eq!(by_kind, http);
    let rpc: Vec<(StatusCode, String)> = each_error()
        .into_iter()
        .map(|(e, _)| {
            let s = e.into_status();
            (s.code, s.message)
        })
        .collect();
    assert_eq!(
        rpc,
        vec![
            (StatusCode::FailedPrecondition, "c".to_string()),
            (StatusCode::NotFound, "n".to_string()),
            (StatusCode::InvalidArgument, "i".to_string()),
            (StatusCode::Internal, "crypto error".to_string()),
            (StatusCode::Internal, "io error: disk".to_string()),
            (StatusCode::Internal, "transport error: t".to_string()),
            (StatusCode::Internal, "internal error: x".to_string()),
        ]
    );
}

#[test]
fn io_errors_convert() {
    let e: Error = std::io::Error::new(std::io::ErrorKind::NotFound, "no file").into();
    assert_eq!(e.kind(), ErrorKind::Io);
    assert_eq!(e.message(), "io error: no file");
    fn read() -> Result<(), Error> {
        Err(std::io::Error::new(std::io::ErrorKind::Other, "q"))?;
        Ok(())
    }
    assert!(matches!(read(), Err(Error::Io(_))));
}

#[test]
fn default_settings() {
    let cli = Cli::default();
    assert!(!cli.debug);
    assert_eq!(cli.log_level, "INFO");
    assert_eq!(cli.appdata, "./");
    assert_eq!(cli.did, "did:web:localhost");
    assert_eq!(cli.organization, "Permguard");
    assert_eq!(cli.credential_provider, "inmemory");
    assert_eq!(cli.issuer_key_path, None);
    assert_eq!(cli.cat_key_path, None);
    assert_eq!(cli.did_doc_path, None);
    assert_eq!(cli.credential_path, None);
    assert_eq!(cli.bind_address, "0.0.0.0");
    assert_eq!(cli.http_port, 9000);
    assert_eq!(cli.grpc_port, 9001);
    assert!(cli.metrics_enabled);
    assert!(!cli.bridge_admin_enabled);
    assert_eq!(cli.shutdown_grace_period, 30);
}

#[test]
fn version_is_that_of_the_package() {
    assert_eq!(version(), "0.1.0");
}

#[test]
fn clock_readings() {
    assert_eq!(seconds_from(-5), 0);
    assert_eq!(seconds_from(0), 0);
    assert_eq!(seconds_from(1_700_000_000), 1_700_000_000);
    assert_eq!(seconds_from(i64::MAX), i64::MAX as u64);
    assert_eq!(seconds_from(i64::MIN), 0);
    let now = now_seconds();
    assert!(now > 1_700_000_000);
    assert!(now < 10_000_000_000);
}

#[test]
fn text_helpers() {
    assert!(str_eq("", ""));
    assert!(str_eq("añb", "añb"));
    assert!(!str_eq("a", "b"));
    assert!(!str_eq("a", "ab"));
    assert!(!str_eq("ab", "a"));
    assert!(bytes_eq(&[], &[]));
    assert!(bytes_eq(&[1, 2], &[1, 2]));
    assert!(!bytes_eq(&[1, 2], &[1, 3]));
    assert!(!bytes_eq(&[1, 2], &[1]));
    assert_eq!(join2("ab", "cd"), "abcd");
    assert_eq!(join2("", ""), "");
    assert_eq!(clone_strings(&vec!["a".to_string(), "b".to_string()]), vec!["a", "b"]);
}

#[test]
fn wire_blocks_are_little_endian_and_length_prefixed() {
    let mut out = vec![0xee];
    put_u32(&mut out, 0x0403_0201);
    put_u64(&mut out, 0x0807_0605_0403_0201);
    put_bytes(&mut out, &[9, 9]);
    put_text(&mut out, "é");
    assert_eq!(
        out,
        vec![0xee, 1, 2, 3, 4, 1, 2, 3, 4, 5, 6, 7, 8, 2, 0, 0, 0, 9, 9, 2, 0, 0, 0, 0xc3, 0xa9]
    );
    assert_eq!(read_u32(&out, 1), Some((0x0403_0201, 5)));
    assert_eq!(read_u64(&out, 5), Some((0x0807_0605_0403_0201, 13)));
    assert_eq!(read_bytes(&out, 13), Some((vec![9, 9], 19)));
    assert_eq!(read_text(&out, 19), Some(("é".to_string(), 25)));
    assert_eq!(read_u32(&out, 25), None);
    assert_eq!(read_u32(&out, 22), None);
    assert_eq!(read_u64(&out, 18), None);
    // a length that runs past the end
    assert_eq!(read_bytes(&[5, 0, 0, 0, 1, 2], 0), None);
    assert_eq!(read_bytes(&[2, 0, 0, 0, 1, 2], 0), Some((vec![1, 2], 6)));
    assert_eq!(read_bytes(&[0, 0, 0, 0], 0), Some((vec![], 4)));
    // bytes that are no UTF-8
    assert_eq!(read_text(&[1, 0, 0, 0, 0xff], 0), None);
    assert_eq!(read_text(&[2, 0, 0, 0, 0xc3], 0), None);
    assert!(text_is_short("short"));
}

#[test]
fn settings_select_the_provider() {
    let mut cli = Cli::default();
    cli.did = "did:web:tp".to_string();
    cli.organization = "Acme".to_string();
    match cli.provider() {
        Ok(ProviderChoice::InMemory(p)) => {
            assert_eq!(p.did, "did:web:tp");
            assert_eq!(p.organization, "Acme");
        }
        other => panic!("{:?}", other),
    }
    cli.credential_provider = "vault".to_string();
    match cli.provider() {
        Err(Error::Config(m)) => assert_eq!(m, "Unknown credential provider: vault"),
        other => panic!("{:?}", other),
    }
    cli.credential_provider = "file".to_string();
    let missing = |cli: &Cli| match cli.provider() {
        Err(Error::Config(m)) => m,
        other => panic!("{:?}", other),
    };
    assert_eq!(missing(&cli), "issuer-key-path is required by the file provider");
    cli.issuer_key_path = Some("i.jwk".to_string());
    assert_eq!(missing(&cli), "cat-key-path is required by the file provider");
    cli.cat_key_path = Some("c.jwk".to_string());
    assert_eq!(missing(&cli), "did-doc-path is required by the file provider");
    cli.did_doc_path = Some("did.json".to_string());
    assert_eq!(missing(&cli), "credential-path is required by the file provider");
    cli.credential_path = Some("vc.json".to_string());
    match cli.provider() {
        Ok(ProviderChoice::File(f)) => {
            assert_eq!(f.issuer_key_path, "i.jwk");
            assert_eq!(f.cat_key_path, "c.jwk");
            assert_eq!(f.did_doc_path, "did.json");
            assert_eq!(f.credential_path, "vc.json");
        }
        other => panic!("{:?}", other),
    }
}

#[test]
fn period_is_year_and_month_in_six_digits() {
    assert_eq!(period(2026, 3), "202603");
    assert_eq!(period(2026, 12), "202612");
    assert_eq!(period(1970, 1), "197001");
    assert_eq!(period(987, 10), "098710");
    assert_eq!(period(0, 0), "000000");
    // years are kept within four digits
    assert_eq!(period(-5, 7), "000007");
    assert_eq!(period(12345, 7), "999907");
    assert_eq!(period(i32::MAX, 1), "999901");
    assert_eq!(period(i32::MIN, 1), "000001");
    // of a month only the last two digits are written
    assert_eq!(period(2026, 123), "202623");
}
