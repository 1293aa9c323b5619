use sol_acc::address::Address;
use sol_acc::decoder::{get_decoder, AltDecoder, DecoderKind};
use sol_acc::errors::AppError;
use sol_acc::pipeline::{run_pipeline, AccountInput, Diagnostic};
use sol_acc::report::DataView;
use sol_acc::request::{build_request, CliArgs};
use sol_acc::rpc::{build_rpc_config, Commitment, PayloadEncoding, RpcFilter};

fn args(program: &str) -> CliArgs {
    CliArgs {
        program: program.to_string(),
        url: "https://solana-rpc.publicnode.com".to_string(),
        parser: None,
        data: None,
        filter: vec![],
        size: None,
        output: None,
    }
}

const PROGRAM: &str = "11111111111111111111111111111111";

/// A serialized address lookup table: the 56-byte metadata (state tag,
/// slots, index, authority, padding), then the raw 32-byte addresses.
fn alt_bytes(addrs: &[[u8; 32]]) -> Vec<u8> {
    let mut v: Vec<u8> = vec![1, 0, 0, 0]; // initialized lookup-table state
    v.extend_from_slice(&u64::MAX.to_le_bytes()); // deactivation_slot
    v.extend_from_slice(&0u64.to_le_bytes()); // last_extended_slot
    v.push(0); // last_extended_slot_start_index
    v.push(1); // authority: present
    v.extend_from_slice(&[7u8; 32]); // authority address
    v.extend_from_slice(&[0, 0]); // padding
    for a in addrs {
        v.extend_from_slice(a);
    }
    v
}

fn account(pubkey: [u8; 32], payload: Option<Vec<u8>>) -> AccountInput {
    AccountInput {
        pubkey: Address::new(pubkey),
        lamports: 5000,
        owner: PROGRAM.to_string(),
        payload,
    }
}

#[test]
fn decoder_resolution() {
    assert_eq!(get_decoder(&None::<String>).unwrap(), None);
    assert_eq!(get_decoder(&Some("alt".to_string())).unwrap(), Some(DecoderKind::Alt));
    assert_eq!(
        get_decoder(&Some("bogus".to_string())).unwrap_err(),
        AppError::UnknownDecoder
    );
    assert_eq!(get_decoder(&Some("".to_string())).unwrap_err(), AppError::UnknownDecoder);
}

#[test]
fn conflict_is_rejected() {
    let mut a = args(PROGRAM);
    a.parser = Some("alt".to_string());
    a.data = Some("0:8".to_string());
    assert_eq!(build_request(a).unwrap_err(), AppError::InvalidArguments);
}

#[test]
fn bad_program_is_rejected() {
    assert_eq!(build_request(args("not-base58")).unwrap_err(), AppError::InvalidArguments);
}

#[test]
fn bad_slice_is_rejected() {
    let mut a = args(PROGRAM);
    a.data = Some("0:x".to_string());
    assert_eq!(build_request(a).unwrap_err(), AppError::InvalidArguments);
    let mut b = args(PROGRAM);
    b.data = Some("08".to_string());
    assert_eq!(build_request(b).unwrap_err(), AppError::InvalidArguments);
}

#[test]
fn bad_filter_error_carries_through() {
    let mut a = args(PROGRAM);
    a.filter = vec!["1:0xabc".to_string()];
    assert_eq!(build_request(a).unwrap_err(), AppError::BadHex);
}

#[test]
fn request_description_fields() {
    let mut a = args(PROGRAM);
    a.data = Some("10:30".to_string());
    a.size = Some(165);
    a.filter = vec!["10:0xdead".to_string()];
    a.output = Some("out.json".to_string());
    let d = build_request(a).unwrap();
    assert_eq!(d.program.bytes, [0u8; 32]);
    assert_eq!(d.program_text, PROGRAM);
    assert_eq!(d.decoder_name, None);
    let sl = d.slice.unwrap();
    assert_eq!((sl.offset, sl.length), (10, 30));
    assert_eq!(d.filters.len(), 1);
    assert_eq!(d.filters[0].offset, 10);
    assert_eq!(d.filters[0].pattern, vec![0xde, 0xad]);
    assert_eq!(d.size_filter, Some(165));
    assert_eq!(d.output_path, Some("out.json".to_string()));
}

#[test]
fn filters_keep_order_and_size_comes_last() {
    let mut a = args(PROGRAM);
    a.filter = vec!["10:0xdead".to_string(), format!("0:{}", PROGRAM)];
    a.size = Some(128);
    let d = build_request(a).unwrap();
    let cfg = build_rpc_config(&d);
    assert!(matches!(cfg.commitment, Commitment::Processed));
    assert!(matches!(cfg.encoding, PayloadEncoding::Base64Zstd));
    assert_eq!(cfg.timeout_secs, 900);
    assert!(cfg.data_slice.is_none());
    let fs = cfg.filters.unwrap();
    assert_eq!(fs.len(), 3);
    match &fs[0] {
        RpcFilter::Memcmp { offset, bytes } => {
            assert_eq!(*offset, 10);
            assert_eq!(bytes, &vec![0xde, 0xad]);
        },
        _ => panic!("first filter must be the first memcmp"),
    }
    match &fs[1] {
        RpcFilter::Memcmp { offset, bytes } => {
            assert_eq!(*offset, 0);
            assert_eq!(bytes, &vec![0u8; 32]);
        },
        _ => panic!("second filter must be the second memcmp"),
    }
    match &fs[2] {
        RpcFilter::DataSize(n) => assert_eq!(*n, 128),
        _ => panic!("size filter must come last"),
    }
}

#[test]
fn slice_carries_into_config() {
    let mut a = args(PROGRAM);
    a.data = Some("10:30".to_string());
    let d = build_request(a).unwrap();
    let cfg = build_rpc_config(&d);
    let sl = cfg.data_slice.unwrap();
    assert_eq!((sl.offset, sl.length), (10, 30));
    assert!(cfg.filters.is_none());
}

#[test]
fn no_filters_means_none() {
    let d = build_request(args(PROGRAM)).unwrap();
    let cfg = build_rpc_config(&d);
    assert!(cfg.filters.is_none());
    assert!(cfg.data_slice.is_none());
}

#[test]
fn empty_result() {
    let program = PROGRAM.to_string();
    let (report, diags) = run_pipeline(&program, &vec![], None);
    assert_eq!(report.program, PROGRAM);
    assert_eq!(report.count, 0);
    assert_eq!(report.accounts.len(), 0);
    assert_eq!(diags.len(), 2);
    assert!(matches!(diags[0], Diagnostic::Fetched(0)));
    assert!(matches!(diags[1], Diagnostic::Processed(0)));
}

#[test]
fn raw_single_account() {
    let program = PROGRAM.to_string();
    let accounts = vec![account([9u8; 32], Some(vec![0x00, 0x01, 0x02]))];
    let (report, diags) = run_pipeline(&program, &accounts, None);
    assert_eq!(report.count, 1);
    assert_eq!(report.count, report.accounts.len());
    let e = &report.accounts[0];
    assert_eq!(e.pubkey, solana_pubkey::Pubkey::new_from_array([9u8; 32]).to_string());
    assert_eq!(e.lamports, 5000);
    assert_eq!(e.owner, PROGRAM);
    match &e.data {
        DataView::Raw { hex, base64, size } => {
            assert_eq!(hex, "000102");
            assert_eq!(base64, "AAEC");
            assert_eq!(*size, 3);
        },
        _ => panic!("expected a raw view"),
    }
    assert!(matches!(diags[0], Diagnostic::Fetched(1)));
    assert!(matches!(diags[1], Diagnostic::Processed(1)));
}

#[test]
fn unusable_payload_is_skipped_silently() {
    let program = PROGRAM.to_string();
    let accounts = vec![account([9u8; 32], None), account([8u8; 32], Some(vec![0xaa]))];
    let (report, diags) = run_pipeline(&program, &accounts, None);
    assert_eq!(report.count, 1);
    assert_eq!(diags.len(), 2);
    assert!(matches!(diags[0], Diagnostic::Fetched(2)));
    assert!(matches!(diags[1], Diagnostic::Processed(1)));
}

#[test]
fn alt_decode_two_addresses() {
    let a1 = [1u8; 32];
    let a2 = [2u8; 32];
    let program = PROGRAM.to_string();
    let accounts = vec![account([9u8; 32], Some(alt_bytes(&[a1, a2])))];
    let (report, _diags) = run_pipeline(&program, &accounts, Some(DecoderKind::Alt));
    assert_eq!(report.count, 1);
    match &report.accounts[0].data {
        DataView::AddressLookupTable { addresses, num_addresses } => {
            assert_eq!(*num_addresses, 2);
            assert_eq!(
                addresses,
                &vec![
                    solana_pubkey::Pubkey::new_from_array(a1).to_string(),
                    solana_pubkey::Pubkey::new_from_array(a2).to_string(),
                ]
            );
        },
        _ => panic!("expected a lookup-table view"),
    }
}

#[test]
fn alt_decode_failure_is_isolated() {
    let program = PROGRAM.to_string();
    let bad = account([4u8; 32], Some(vec![9, 9, 9]));
    let good = account([5u8; 32], Some(alt_bytes(&[])));
    let accounts = vec![bad, good];
    let (report, diags) = run_pipeline(&program, &accounts, Some(DecoderKind::Alt));
    assert_eq!(report.count, 1);
    match &report.accounts[0].data {
        DataView::AddressLookupTable { num_addresses, .. } => assert_eq!(*num_addresses, 0),
        _ => panic!("expected a lookup-table view"),
    }
    assert_eq!(report.accounts[0].pubkey, solana_pubkey::Pubkey::new_from_array([5u8; 32]).to_string());
    assert_eq!(diags.len(), 3);
    assert!(matches!(diags[0], Diagnostic::Fetched(2)));
    match &diags[1] {
        Diagnostic::DecodeFailed { pubkey } => {
            assert_eq!(pubkey, &solana_pubkey::Pubkey::new_from_array([4u8; 32]).to_string());
        },
        _ => panic!("expected a decode-failure diagnostic"),
    }
    assert!(matches!(diags[2], Diagnostic::Processed(1)));
}

#[test]
fn alt_decoder_direct() {
    assert!(AltDecoder::decode(&vec![0, 0, 0, 0]).is_none());
    assert!(AltDecoder::decode(&vec![]).is_none());
    let v = AltDecoder::decode(&alt_bytes(&[])).unwrap();
    match v {
        DataView::AddressLookupTable { addresses, num_addresses } => {
            assert_eq!(num_addresses, 0);
            assert!(addresses.is_empty());
        },
        _ => panic!("expected a lookup-table view"),
    }
    // trailing bytes not a multiple of 32 are refused
    let mut odd = alt_bytes(&[]);
    odd.push(0xaa);
    assert!(AltDecoder::decode(&odd).is_none());
}

#[test]
fn every_pubkey_is_valid_base58() {
    let program = PROGRAM.to_string();
    let accounts = vec![
        account([1u8; 32], Some(vec![1])),
        account([2u8; 32], Some(vec![2, 3])),
    ];
    let (report, _) = run_pipeline(&program, &accounts, None);
    assert_eq!(report.count, report.accounts.len());
    for e in &report.accounts {
        let pk: solana_pubkey::Pubkey = e.pubkey.parse().unwrap();
        assert_eq!(pk.to_string(), e.pubkey);
    }
}
