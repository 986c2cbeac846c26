use jobruntime::error::ErrorKind;
use jobruntime::tls::{
    alpn_protocols, cipher_suites, protocol_versions, CipherSuite, ProtocolVersion,
};
use jobruntime::tls::{
    extract_name_from_certificate, extract_username_from_request,
    intercept_extract_username_from_certificate, username_from_names, UsernameExtension,
};

fn admin_certificate() -> Vec<u8> {
    vec![
        48, 130, 1, 147, 48, 130, 1, 57, 160, 3, 2, 1, 2, 2, 20, 63,
        209, 14, 52, 149, 47, 182, 244, 210, 178, 197, 138, 192, 94, 26, 139, 137,
        69, 103, 154, 48, 10, 6, 8, 42, 134, 72, 206, 61, 4, 3, 2, 48,
        31, 49, 13, 48, 11, 6, 3, 85, 4, 10, 12, 4, 106, 111, 98, 115,
        49, 14, 48, 12, 6, 3, 85, 4, 3, 12, 5, 97, 100, 109, 105, 110,
        48, 30, 23, 13, 50, 54, 49, 48, 50, 55, 50, 50, 52, 56, 52, 53,
        90, 23, 13, 51, 54, 49, 48, 50, 52, 50, 50, 52, 56, 52, 53, 90,
        48, 31, 49, 13, 48, 11, 6, 3, 85, 4, 10, 12, 4, 106, 111, 98,
        115, 49, 14, 48, 12, 6, 3, 85, 4, 3, 12, 5, 97, 100, 109, 105,
        110, 48, 89, 48, 19, 6, 7, 42, 134, 72, 206, 61, 2, 1, 6, 8,
        42, 134, 72, 206, 61, 3, 1, 7, 3, 66, 0, 4, 227, 106, 178, 129,
        112, 232, 22, 232, 162, 145, 38, 227, 177, 38, 54, 253, 141, 229, 35, 113,
        215, 135, 66, 155, 148, 212, 4, 235, 151, 186, 72, 75, 138, 165, 79, 80,
        6, 60, 176, 98, 203, 153, 58, 146, 253, 56, 88, 85, 106, 124, 57, 12,
        166, 17, 96, 163, 48, 123, 225, 227, 227, 166, 181, 90, 163, 83, 48, 81,
        48, 29, 6, 3, 85, 29, 14, 4, 22, 4, 20, 195, 161, 149, 218, 134,
        212, 133, 223, 67, 42, 222, 128, 235, 23, 155, 217, 43, 61, 206, 211, 48,
        31, 6, 3, 85, 29, 35, 4, 24, 48, 22, 128, 20, 195, 161, 149, 218,
        134, 212, 133, 223, 67, 42, 222, 128, 235, 23, 155, 217, 43, 61, 206, 211,
        48, 15, 6, 3, 85, 29, 19, 1, 1, 255, 4, 5, 48, 3, 1, 1,
        255, 48, 10, 6, 8, 42, 134, 72, 206, 61, 4, 3, 2, 3, 72, 0,
        48, 69, 2, 33, 0, 168, 114, 4, 99, 180, 118, 97, 135, 156, 59, 251,
        253, 70, 187, 208, 72, 250, 33, 82, 132, 104, 13, 192, 99, 12, 113, 13,
        115, 100, 33, 109, 156, 2, 32, 75, 88, 158, 6, 65, 0, 88, 86, 130,
        65, 241, 89, 178, 96, 18, 166, 160, 77, 165, 168, 0, 101, 78, 213, 131,
        37, 49, 168, 138, 203, 126, 239,
    ]
}

fn nameless_certificate() -> Vec<u8> {
    vec![
        48, 130, 1, 115, 48, 130, 1, 25, 160, 3, 2, 1, 2, 2, 20, 31,
        79, 82, 190, 94, 162, 238, 200, 77, 19, 100, 139, 221, 255, 222, 134, 103,
        63, 230, 15, 48, 10, 6, 8, 42, 134, 72, 206, 61, 4, 3, 2, 48,
        15, 49, 13, 48, 11, 6, 3, 85, 4, 10, 12, 4, 106, 111, 98, 115,
        48, 30, 23, 13, 50, 54, 49, 48, 50, 55, 50, 50, 52, 56, 52, 53,
        90, 23, 13, 51, 54, 49, 48, 50, 52, 50, 50, 52, 56, 52, 53, 90,
        48, 15, 49, 13, 48, 11, 6, 3, 85, 4, 10, 12, 4, 106, 111, 98,
        115, 48, 89, 48, 19, 6, 7, 42, 134, 72, 206, 61, 2, 1, 6, 8,
        42, 134, 72, 206, 61, 3, 1, 7, 3, 66, 0, 4, 24, 25, 88, 124,
        56, 175, 183, 23, 123, 95, 242, 4, 67, 239, 15, 206, 10, 178, 228, 129,
        116, 130, 188, 93, 184, 0, 172, 200, 103, 107, 152, 228, 148, 120, 4, 51,
        182, 179, 72, 30, 17, 252, 56, 101, 10, 70, 7, 110, 9, 47, 120, 21,
        49, 137, 234, 157, 46, 113, 214, 253, 96, 206, 180, 195, 163, 83, 48, 81,
        48, 29, 6, 3, 85, 29, 14, 4, 22, 4, 20, 97, 68, 231, 142, 89,
        106, 54, 236, 106, 221, 102, 129, 240, 34, 16, 61, 232, 48, 45, 253, 48,
        31, 6, 3, 85, 29, 35, 4, 24, 48, 22, 128, 20, 97, 68, 231, 142,
        89, 106, 54, 236, 106, 221, 102, 129, 240, 34, 16, 61, 232, 48, 45, 253,
        48, 15, 6, 3, 85, 29, 19, 1, 1, 255, 4, 5, 48, 3, 1, 1,
        255, 48, 10, 6, 8, 42, 134, 72, 206, 61, 4, 3, 2, 3, 72, 0,
        48, 69, 2, 33, 0, 252, 65, 44, 86, 114, 230, 54, 89, 212, 132, 28,
        132, 63, 51, 51, 140, 101, 142, 216, 230, 171, 54, 187, 210, 146, 30, 71,
        21, 111, 103, 203, 201, 2, 32, 3, 128, 222, 10, 155, 69, 224, 174, 209,
        210, 233, 243, 213, 47, 149, 169, 104, 137, 35, 221, 80, 131, 98, 213, 228,
        28, 74, 67, 97, 12, 29, 46,
    ]
}

#[test]
fn extract_name_from_certificate_extracts_valid_name() {
    let names = vec![Some("admin".to_string())];
    assert_eq!(extract_name_from_certificate(&names).unwrap(), "admin");
    let bound = intercept_extract_username_from_certificate(&vec![admin_certificate()]).unwrap();
    assert_eq!(bound.username, "admin");
}

#[test]
fn first_common_name_decides() {
    let names = vec![Some("first".to_string()), Some("second".to_string())];
    assert_eq!(extract_name_from_certificate(&names).unwrap(), "first");
    let names = vec![None, Some("second".to_string())];
    let e = extract_name_from_certificate(&names).unwrap_err();
    assert_eq!(e.kind, ErrorKind::Unauthenticated);
    assert_eq!(e.message, "invalid CommonName in certificate");
    assert_eq!(
        extract_name_from_certificate(&vec![]).unwrap_err().message,
        "invalid CommonName in certificate"
    );
}

#[test]
fn certificate_without_common_name_is_unauthenticated() {
    let e = intercept_extract_username_from_certificate(&vec![nameless_certificate()]).unwrap_err();
    assert_eq!(e.kind, ErrorKind::Unauthenticated);
    assert_eq!(e.message, "failed to extract username: invalid CommonName in certificate");
}

#[test]
fn peer_without_certificate_is_unauthenticated() {
    let e = intercept_extract_username_from_certificate(&vec![]).unwrap_err();
    assert_eq!(e.kind, ErrorKind::Unauthenticated);
    assert_eq!(e.message, "no certificate found");
}

#[test]
fn garbage_certificate_is_unauthenticated() {
    let e = intercept_extract_username_from_certificate(&vec![b"admin".to_vec()]).unwrap_err();
    assert_eq!(e.kind, ErrorKind::Unauthenticated);
    assert!(e.message.starts_with("failed to parse certificate: "));
    assert!(e.message.len() > "failed to parse certificate: ".len());
}

#[test]
fn only_the_leaf_certificate_is_read() {
    let certs = vec![admin_certificate(), b"garbage".to_vec()];
    assert_eq!(intercept_extract_username_from_certificate(&certs).unwrap().username, "admin");
}

#[test]
fn parser_words_are_passed_on() {
    let e = username_from_names(Err("bad bytes".to_string())).unwrap_err();
    assert_eq!(e.kind, ErrorKind::Unauthenticated);
    assert_eq!(e.message, "failed to parse certificate: bad bytes");
    let ok = username_from_names(Ok(vec![Some("carol".to_string())])).unwrap();
    assert_eq!(ok.username, "carol");
}

#[test]
fn request_without_owner_is_a_broken_invariant() {
    let e = extract_username_from_request(None).unwrap_err();
    assert_eq!(e.kind, ErrorKind::Internal);
    assert_eq!(e.message, "unable to get username extension");
    let ext = UsernameExtension { username: "dave".to_string() };
    assert_eq!(extract_username_from_request(Some(&ext)).unwrap(), "dave");
}

#[test]
fn transport_policy_is_tls13_and_h2() {
    assert_eq!(
        cipher_suites(),
        vec![
            CipherSuite::Tls13Aes128GcmSha256,
            CipherSuite::Tls13Aes256GcmSha384,
            CipherSuite::Tls13Chacha20Poly1305Sha256,
        ]
    );
    assert_eq!(alpn_protocols(), vec![b"h2".to_vec()]);
    assert_eq!(protocol_versions(), vec![ProtocolVersion::Tls13]);
}
