//! JSON documents in files.
use sonata::json::{nested, Json};
use sonata::json_file::{
    document_text, new_auth_document, new_config_document, read_document, DocumentFault,
};

#[test]
fn a_document_is_an_object() {
    assert!(matches!(read_document("{"), Err(DocumentFault::NoJson)));
    assert!(matches!(read_document("[]"), Err(DocumentFault::NoObject)));
    assert!(matches!(read_document(" {} "), Ok(Json::Object(_))));
    assert_eq!(
        DocumentFault::NoJson.message("composer.json"),
        "composer.json does not contain valid JSON"
    );
    assert_eq!(
        DocumentFault::NoObject.message("composer.json"),
        "composer.json must contain a JSON object"
    );
}

#[test]
fn new_documents() {
    assert_eq!(document_text(&new_config_document()), "{\n  \"config\": {}\n}\n");
    let auth = document_text(&new_auth_document());
    assert!(auth.starts_with("{\n  \"bitbucket-oauth\": {},\n  \"github-oauth\": {},\n"));
    assert!(auth.ends_with("  \"bearer\": {},\n  \"forgejo-token\": {}\n}\n"));
}

#[test]
fn a_written_document_is_read_back() {
    let text = "{\n  \"a\": {\n    \"b\": [\n      -1,\n      2,\n      \"\\u0001\u{e9}\"\n    ]\n  }\n}\n";
    let document = match read_document(text) {
        Ok(document) => document,
        Err(_) => panic!("refused"),
    };
    assert_eq!(document_text(&document), text);
    assert!(matches!(nested(&document, &["a", "b"]), Some(Json::Array(items)) if items.len() == 3));
}
