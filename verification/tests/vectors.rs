//! The binding against the test vectors published with the external
//! primitive's own test suite (generated from cairo-lang v0.11.0).

use poseidon_hashing::{Felt, HasherT, PoseidonHasher};

fn nibble(c: u8) -> u8 {
    match c {
        b'0'..=b'9' => c - b'0',
        b'a'..=b'f' => c - b'a' + 10,
        b'A'..=b'F' => c - b'A' + 10,
        _ => panic!("not a hex digit"),
    }
}

fn hex_bytes(s: &str) -> Vec<u8> {
    let t = s.trim_start_matches("0x");
    let padded = if t.len() % 2 == 1 { format!("0{}", t) } else { t.to_string() };
    let raw = padded.as_bytes();
    let mut out = Vec::new();
    let mut i = 0;
    while i < raw.len() {
        out.push(nibble(raw[i]) * 16 + nibble(raw[i + 1]));
        i += 2;
    }
    out
}

fn hex_felt(s: &str) -> Felt {
    Felt::from_byte_slice_be(&hex_bytes(s)).unwrap()
}

#[test]
fn pair_hash_matches_published_vectors() {
    let cases = [
        (
            "0xb662f9017fa7956fd70e26129b1833e10ad000fd37b4d9f4e0ce6884b7bbe",
            "0x1fe356bf76102cdae1bfbdc173602ead228b12904c00dad9cf16e035468bea",
            "0x75540825a6ecc5dc7d7c2f5f868164182742227f1367d66c43ee51ec7937a81",
        ),
        (
            "0xf4e01b2032298f86b539e3d3ac05ced20d2ef275273f9325f8827717156529",
            "0x587bc46f5f58e0511b93c31134652a689d761a9e7f234f0f130c52e4679f3a",
            "0xbdb3180fdcfd6d6f172beb401af54dd71b6569e6061767234db2b777adf98b",
        ),
    ];
    for (x, y, expected) in cases {
        let got = PoseidonHasher::hash_elements(hex_felt(x), hex_felt(y));
        assert_eq!(got, hex_felt(expected));
    }
}

#[test]
fn byte_hash_matches_published_single_vectors() {
    let cases = [
        (
            "0x9dad5d6f502ccbcb6d34ede04f0337df3b98936aaf782f4cc07d147e3a4fd6",
            "0x11222854783f17f1c580ff64671bc3868de034c236f956216e8ed4ab7533455",
        ),
        (
            "0x3164a8e2181ff7b83391b4a86bc8967f145c38f10f35fc74e9359a0c78f7b6",
            "0x79ad7aa7b98d47705446fa01865942119026ac748d67a5840f06948bce2306b",
        ),
    ];
    let hasher = PoseidonHasher::default();
    for (input, expected) in cases {
        let digest = hasher.hash_bytes(&hex_bytes(input)).unwrap();
        assert_eq!(digest.0, hex_felt(expected));
    }
}

#[test]
fn sequence_hash_matches_published_vectors() {
    let cases = [
        (
            vec![
                "0x9bf52404586087391c5fbb42538692e7ca2149bac13c145ae4230a51a6fc47",
                "0x40304159ee9d2d611120fbd7c7fb8020cc8f7a599bfa108e0e085222b862c0",
                "0x46286e4f3c450761d960d6a151a9c0988f9e16f8a48d4c0a85817c009f806a",
            ],
            "0x1ec38b38dc88bac7b0ed6ff6326f975a06a59ac601b417745fd412a5d38e4f7",
        ),
        (
            vec![
                "0xbdace8883922662601b2fd197bb660b081fcf383ede60725bd080d4b5f2fd3",
                "0x1eb1daaf3fdad326b959dec70ced23649cdf8786537cee0c5758a1a4229097",
                "0x869ca04071b779d6f940cdf33e62d51521e19223ab148ef571856ff3a44ff1",
                "0x533e6df8d7c4b634b1f27035c8676a7439c635e1fea356484de7f0de677930",
            ],
            "0x2520b8f910174c3e650725baacad4efafaae7623c69a0b5513d75e500f36624",
        ),
    ];
    for (inputs, expected) in cases {
        let elements: Vec<Felt> = inputs.iter().map(|s| hex_felt(s)).collect();
        let got = PoseidonHasher::compute_hash_on_elements(&elements);
        assert_eq!(got, hex_felt(expected));
    }
}

#[test]
fn sequence_hash_of_pair_uses_padded_construction() {
    // The external primitive defines the sequence hash by a padded sponge,
    // so hashing the two-element sequence [a, b] is not the same operation
    // as the binary hash of (a, b).
    let a = hex_felt("0xb662f9017fa7956fd70e26129b1833e10ad000fd37b4d9f4e0ce6884b7bbe");
    let b = hex_felt("0x1fe356bf76102cdae1bfbdc173602ead228b12904c00dad9cf16e035468bea");
    let pair = PoseidonHasher::hash_elements(a.duplicate(), b.duplicate());
    let seq = PoseidonHasher::compute_hash_on_elements(&[a, b]);
    assert_ne!(pair, seq);
}
