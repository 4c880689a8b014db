use survey_backend::cors::CORS;

#[test]
fn cors_headers_are_the_four_of_the_policy() {
    assert_eq!(
        CORS.headers(),
        vec![
            ("Access-Control-Allow-Origin", "*"),
            ("Access-Control-Allow-Methods", "POST, GET, PATCH, OPTIONS"),
            ("Access-Control-Allow-Headers", "*"),
            ("Access-Control-Allow-Credentials", "true"),
        ]
    );
}
