use axum::http::HeaderValue;
use axum_extra::headers::authorization::Bearer;
use axum_extra::headers::{Authorization, Header};
use sac_backend::token::bearer_token;

fn typed(value: &str) -> Option<String> {
    let header = HeaderValue::from_str(value).ok()?;
    let mut values = std::iter::once(&header);
    let parsed = Authorization::<Bearer>::decode(&mut values).ok()?;
    Some(parsed.token().to_string())
}

#[test]
fn bearer_token_agrees_with_the_typed_header() {
    let samples = [
        "Bearer abc.def.ghi",
        "bearer abc",
        "BEARER abc",
        "bEaReR abc",
        "Bearer   abc",
        "Bearer \tabc ",
        "Bearer \t \t",
        "Bearer ",
        "Bearer",
        "Beare",
        "Bearerabc",
        "Bearer\tabc",
        "Bearer  ",
        "Basic abc",
        "Bearer: abc",
        " Bearer abc",
        "abc",
        "",
        "Bearer ab\u{e9}",
        "Bearer ab\u{7f}",
        "Bearer ab\ncd",
        "Bearer ab\rcd",
        "Bearer ab\u{0}cd",
        "Bearer a b c",
        "Bearer ~!@#$%^&*()_+{}|:\"<>?`-=[]\\;',./",
        "B\u{e9}arer abc",
    ];
    for value in samples {
        assert_eq!(bearer_token(value), typed(value), "for {:?}", value);
    }
}
