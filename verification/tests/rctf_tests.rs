use bearcds::challenge::{Challenge, Expose};
use bearcds::json::Json;
use bearcds::rctf::{
    category_of, chall_update_doc, connection_info, data_url, rctf_chall_id, rctf_chall_url,
    rctf_upload_url, render_description, upload_payload, RctfFile, RctfUploadedFile,
};
use bearcds::render::to_json_text;

#[test]
fn platform_id_prefixes_and_flattens_the_service_id() {
    assert_eq!(rctf_chall_id("crypto/aesy"), "bcds-crypto-aesy");
    assert_eq!(rctf_chall_id("misc"), "bcds-misc");
}

#[test]
fn category_is_the_first_path_segment() {
    assert_eq!(category_of("crypto/aesy"), "crypto");
    assert_eq!(category_of("web/shop/extra"), "web");
    assert_eq!(category_of("noslash"), "noslash");
    assert_eq!(category_of(""), "");
}

#[test]
fn connection_info_renders_netcat_lines_and_links() {
    let tcp = Expose::Tcp { target: 31337, tcp: 9001 };
    assert_eq!(
        connection_info(&tcp, "ctf.example.com"),
        "`nc chal.ctf.example.com 9001`"
    );
    let http = Expose::Http { target: 80, http: "aesy".to_string() };
    assert_eq!(
        connection_info(&http, "ctf.example.com"),
        "[http://aesy.ctf.example.com](http://aesy.ctf.example.com)"
    );
}

#[test]
fn descriptions_splice_each_containers_address() {
    let expose = vec![
        ("main".to_string(), Expose::Tcp { target: 31337, tcp: 9001 }),
        ("web".to_string(), Expose::Http { target: 80, http: "aesy".to_string() }),
    ];
    let desc = "Connect with {{main.url}} or browse {{web.url}}.".to_string();
    assert_eq!(
        render_description(&desc, &expose, "ctf.example.com"),
        "Connect with `nc chal.ctf.example.com 9001` or browse \
         [http://aesy.ctf.example.com](http://aesy.ctf.example.com)."
    );
}

#[test]
fn descriptions_without_placeholders_pass_through() {
    let expose = vec![("main".to_string(), Expose::Tcp { target: 1, tcp: 2 })];
    let desc = "No placeholders here.".to_string();
    assert_eq!(
        render_description(&desc, &expose, "ctf.example.com"),
        "No placeholders here."
    );
}

#[test]
fn data_url_carries_the_base64_of_the_bytes() {
    let bytes = b"hello".to_vec();
    assert_eq!(data_url(&bytes), "data:image/png;base64,aGVsbG8=");
    assert_eq!(data_url(&Vec::new()), "data:image/png;base64,");
    // A url-safe alphabet: bytes that standard base64 would write as `/`.
    assert_eq!(data_url(&vec![0xff, 0xff]), "data:image/png;base64,__8=");
}

#[test]
fn upload_payload_wraps_every_file_as_a_data_url() {
    let files = vec![RctfFile { name: "flag.txt".to_string(), data: b"hello".to_vec() }];
    let doc = upload_payload(&files);
    assert_eq!(
        to_json_text(&doc),
        "{\"files\":[{\"name\":\"flag.txt\",\"data\":\"data:image/png;base64,aGVsbG8=\"}]}"
    );
}

#[test]
fn update_doc_posts_the_challenge_with_fixed_points() {
    let chall = Challenge {
        id: "crypto/aesy".to_string(),
        name: "aesy".to_string(),
        author: "someone".to_string(),
        description: "raw {{main.url}}".to_string(),
        flag: "flag{x}".to_string(),
        hidden: None,
        provide: None,
        containers: vec![],
        expose: vec![],
    };
    let files = vec![RctfUploadedFile {
        name: "flag.txt".to_string(),
        url: "https://cdn.example.com/flag.txt".to_string(),
    }];
    let doc = chall_update_doc(
        &chall,
        &"crypto".to_string(),
        &"rendered description".to_string(),
        &files,
    );
    assert_eq!(
        to_json_text(&doc),
        "{\"data\":{\"author\":\"someone\",\"category\":\"crypto\",\
         \"description\":\"rendered description\",\"flag\":\"flag{x}\",\"name\":\"aesy\",\
         \"points\":{\"min\":100,\"max\":500},\
         \"files\":[{\"name\":\"flag.txt\",\"url\":\"https://cdn.example.com/flag.txt\"}],\
         \"tiebreakEligible\":true}}"
    );
}

#[test]
fn platform_urls_are_built_from_the_base() {
    assert_eq!(
        rctf_upload_url("https://rctf.example.com"),
        "https://rctf.example.com/api/v1/admin/upload"
    );
    assert_eq!(
        rctf_chall_url("https://rctf.example.com", "bcds-crypto-aesy"),
        "https://rctf.example.com/api/v1/admin/challs/bcds-crypto-aesy"
    );
}

#[test]
fn merge_of_override_keeps_rendered_update_doc_shape() {
    // The update document is plain JSON of the library's own type.
    let doc = upload_payload(&vec![]);
    assert_eq!(to_json_text(&doc), "{\"files\":[]}");
    assert!(matches!(doc, Json::Obj(_)));
}
