use cardano_lightning_client::address::{is_payable, is_spendable};

#[test]
fn addresses_of_today_can_be_read() {
    for address in [
        "addr_test1vpjx2en8dp5k56mvd4hx7ur3wfehgatkwau8j7nm037hulcv0deps",
        "addr1vx2fxv2umyhttkxyxp8x0dlpdt3k6cwng5pxj3jhsydzers66hrl8",
        "ADDR1VX2FXV2UMYHTTKXYXP8X0DLPDT3K6CWNG5PXJ3JHSYDZERS66HRL8",
    ] {
        assert!(is_spendable(address));
        assert!(is_payable(address));
    }
    // All characters of these are digits in base58.
    for length in [58, 103] {
        assert!(is_payable(&format!("addr1{}", "q".repeat(length - 5))));
    }
}

#[test]
fn what_is_no_address_can_be_read_too() {
    for text in ["", "1", "nowhere", "a1b1c", "no address at all", "addr1é", "1111111111111111111"] {
        assert!(is_spendable(text));
        assert!(is_payable(text));
    }
}

#[test]
fn addresses_without_a_payload_cannot_be_read() {
    for address in ["a12uel5l", "A12UEL5L", "1qqqqqq", "11qqqqqq"] {
        assert!(!is_spendable(address));
        assert!(!is_payable(address));
    }
    // These have a character that is no digit, or letters of both cases.
    for address in ["a12uel5o", "A12UEL5B", "a12UEL5L"] {
        assert!(is_spendable(address));
        assert!(is_payable(address));
    }
    assert!(is_spendable("a12uel5"));
    assert!(is_spendable("a12uel5ll"));
}

#[test]
fn addresses_of_the_byron_era_can_be_read() {
    for address in [
        "Ae2tdPwUPEZFRbyhz3cpfC2CumGzNkFBN2L42rcUc2yjQpEkxDbkPodpMAi",
        "Ae2tdPwUPEYvonZpzjqm9roCdj4Aipuz6AAer9TVPHMWhr6qojNk1w4qoxj",
        "2cWKMJemoBah8R3jomQCz5P1dE82b6M3iTiaPFsSVbJ1Y29uSWnqCYonJZDW2ka4UGxdi",
        "DdzFFzCqrhsdnFjRQTso8EfpY4HcwsHCRyxhwE2aTzJGVBeLyGPdfnuwSqJ2CSX2HNiytrbfV6uazpnt7GcDXLmNt9tHPsSBZCZ2Ungk",
        "37btjrVyb4KAkUekepKkzFKXqAiEULtqPgVndPRe7saHzS9cFaUTc7CEJaF38dQ9NQ9hAvCLdU7LNGjbNepnPTWpXF4akVNH21PW8owRfD7MqzC1y3",
        "addr1stvpskppsdvpcqqpqgpsgpgxquyqjzstpsxsurcszyfpx9q4zct3sxg6rwsqqx57vnkqs7hle7s",
        "addr1stvpskpgsdvpcqqpqgpsgpgxquyqjzstpsxsurcszyfpx9q4zct3sxg6rwssy3g6g9cvk9cqr2ya6jd40amhr9",
        "addr1stvpskzzsdvpcqqpqgpsgpgxquyqjzstpsxsurcszyfpx9q4zct3sxg6rwsszkq7tqwxgetxva5xj6ntd3kkummsw9e8xar4wemhs7t60d786lnlqqd282cut5us30sc",
        "ADDR1STVPSKPPSDVPCQQPQGPSGPGXQUYQJZSTPSXSURCSZYFPX9Q4ZCT3SXG6RWSQQX57VNKQS7HLE7S",
    ] {
        assert!(is_spendable(address), "{}", address);
        assert!(is_payable(address), "{}", address);
    }
}

#[test]
fn malformed_addresses_of_the_byron_era_cannot_be_read() {
    // The length of the whole, of the hash or of an attribute takes up eight bytes.
    for address in [
        "3UDC6FvHryfqYsdjk",
        "2pjAUcZyswbB3vCuCU8j6zGUKMUV",
        "3PdK4817pCPhJXoLDXyUN2d9GRZsEYKHM2u4Khb7ALi7gpNDyWWiS2BJhuvwSR5MAUTfvbgAR",
        "DfMggcTqgQgrCV16kn",
    ] {
        assert!(!is_payable(address), "{}", address);
    }
    for address in [
        "addr1stvpsklllllllllllllslwacng",
        "ADDR1STVPSKLLLLLLLLLLLLLSLWACNG",
        "addr1stvpskq2sddlllllllllllllrfddjpd2pup6dy",
        "addr1stvpskptsdvpcqqpqgpsgpgxquyqjzstpsxsurcszyfpx9q4zct3sxg6rwsszklllllllllllllsqxhulh60umfrzme",
    ] {
        assert!(!is_spendable(address), "{}", address);
        assert!(!is_payable(address), "{}", address);
    }
    // One byte less is too short for such a length, and a zero byte in front begins no address.
    assert!(is_payable("ZSsYYvm9c3TQXxS"));
    assert!(is_payable("13UDC6FvHryfqYsdjk"));
}
