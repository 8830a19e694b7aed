use game_launcher::mime::{content_type_for, detect_encoding, ContentEncoding};

#[test]
fn knows_every_extension_of_the_table() {
    assert_eq!(content_type_for("game.wasm"), "application/wasm");
    assert_eq!(content_type_for("loader.js"), "application/javascript; charset=utf-8");
    assert_eq!(content_type_for("game.data"), "application/octet-stream");
    assert_eq!(content_type_for("settings.json"), "application/json; charset=utf-8");
    assert_eq!(content_type_for("style.css"), "text/css; charset=utf-8");
    assert_eq!(content_type_for("index.html"), "text/html; charset=utf-8");
    assert_eq!(content_type_for("index.htm"), "text/html; charset=utf-8");
    assert_eq!(content_type_for("logo.png"), "image/png");
    assert_eq!(content_type_for("photo.jpg"), "image/jpeg");
    assert_eq!(content_type_for("photo.jpeg"), "image/jpeg");
    assert_eq!(content_type_for("icon.svg"), "image/svg+xml");
    assert_eq!(content_type_for("favicon.ico"), "image/x-icon");
}

#[test]
fn falls_back_to_a_stream_of_bytes() {
    assert_eq!(content_type_for("archive.zip"), "application/octet-stream");
    assert_eq!(content_type_for("README"), "application/octet-stream");
    assert_eq!(content_type_for(""), "application/octet-stream");
    assert_eq!(content_type_for("wasm"), "application/octet-stream");
    assert_eq!(content_type_for("game.wasm.br"), "application/octet-stream");
    assert_eq!(content_type_for("js"), "application/octet-stream");
}

#[test]
fn ignores_the_case_of_the_extension() {
    assert_eq!(content_type_for("GAME.WASM"), "application/wasm");
    assert_eq!(content_type_for("Index.HtMl"), "text/html; charset=utf-8");
    assert_eq!(content_type_for("/srv/Breach It/LOGO.PNG"), "image/png");
}

#[test]
fn looks_at_the_end_of_the_name_only() {
    assert_eq!(content_type_for("a.js.png"), "image/png");
    assert_eq!(content_type_for("a.png.js"), "application/javascript; charset=utf-8");
    assert_eq!(content_type_for(".js"), "application/javascript; charset=utf-8");
    assert_eq!(content_type_for("x.json"), "application/json; charset=utf-8");
    assert_eq!(content_type_for("caf\u{e9}.css"), "text/css; charset=utf-8");
}

#[test]
fn detects_gzip_and_brotli() {
    assert_eq!(detect_encoding("bundle.wasm.br"), (ContentEncoding::Brotli, "bundle.wasm".to_string()));
    assert_eq!(detect_encoding("bundle.js.gz"), (ContentEncoding::Gzip, "bundle.js".to_string()));
    assert_eq!(detect_encoding("bundle.js"), (ContentEncoding::Identity, "bundle.js".to_string()));
    assert_eq!(detect_encoding(""), (ContentEncoding::Identity, String::new()));
}

#[test]
fn strips_a_repeated_suffix_in_full() {
    assert_eq!(detect_encoding("a.js.gz.gz"), (ContentEncoding::Gzip, "a.js".to_string()));
    assert_eq!(detect_encoding("a.br.br.br"), (ContentEncoding::Brotli, "a".to_string()));
    assert_eq!(detect_encoding("a.br.gz"), (ContentEncoding::Gzip, "a.br".to_string()));
    assert_eq!(detect_encoding("a.gz.br"), (ContentEncoding::Brotli, "a.gz".to_string()));
    assert_eq!(detect_encoding(".gz"), (ContentEncoding::Gzip, String::new()));
}

#[test]
fn takes_the_suffix_literally() {
    assert_eq!(detect_encoding("a.js.GZ"), (ContentEncoding::Identity, "a.js.GZ".to_string()));
    assert_eq!(detect_encoding("a.js.Br"), (ContentEncoding::Identity, "a.js.Br".to_string()));
    assert_eq!(detect_encoding("gz"), (ContentEncoding::Identity, "gz".to_string()));
}

#[test]
fn names_the_scheme_for_the_header() {
    assert_eq!(ContentEncoding::Gzip.name(), "gzip");
    assert_eq!(ContentEncoding::Brotli.name(), "br");
    assert_eq!(ContentEncoding::Identity.name(), "");
}
