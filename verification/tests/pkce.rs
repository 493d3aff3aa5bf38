use caltui::pkce::{base64url, new_pkce, pkce_challenge, pkce_from};

#[test]
fn base64url_without_padding() {
    assert_eq!(base64url(b""), "");
    assert_eq!(base64url(b"f"), "Zg");
    assert_eq!(base64url(b"fo"), "Zm8");
    assert_eq!(base64url(b"foo"), "Zm9v");
    assert_eq!(base64url(b"foobar"), "Zm9vYmFy");
    assert_eq!(base64url(&[0xfb, 0xff, 0xfe]), "-__-");
}

#[test]
fn the_s256_challenge_of_the_rfc_example() {
    let seed: [u8; 32] = [
        116, 24, 223, 180, 151, 153, 224, 37, 79, 250, 96, 125, 216, 173, 187, 186, 22, 212, 37, 77, 105, 214,
        191, 240, 91, 88, 5, 88, 83, 132, 141, 121,
    ];
    let p = pkce_from(&seed);
    assert_eq!(p.verifier, "dBjftJeZ4CVP-mB92K27uhbUJU1p1r_wW1gFWFOEjXk");
    assert_eq!(p.challenge, "E9Melhoa2OwvFrEMTJguCHaoeK1t8URWbuGJSstw-cM");
    assert_eq!(pkce_challenge("dBjftJeZ4CVP-mB92K27uhbUJU1p1r_wW1gFWFOEjXk"), "E9Melhoa2OwvFrEMTJguCHaoeK1t8URWbuGJSstw-cM");
}

#[test]
fn a_fresh_verifier_has_43_characters() {
    let p = new_pkce().unwrap();
    assert_eq!(p.verifier.len(), 43);
    assert_eq!(p.challenge, pkce_challenge(&p.verifier));
    assert_ne!(new_pkce().unwrap().verifier, p.verifier);
}
