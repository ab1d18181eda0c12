use pnpro::server::{
    build_route_tree, check_token, from_api_user_id, home_route, login_params, new_user, password_update,
    route_flags, routes_user_id, shown_user_name, to_api_user_id, token_pair, AuthError,
};

#[test]
fn user_ids_roundtrip() {
    assert_eq!(to_api_user_id(42), "42");
    assert_eq!(to_api_user_id(-7), "-7");
    assert_eq!(from_api_user_id("42"), Some(42));
    assert_eq!(from_api_user_id("+5"), Some(5));
    assert_eq!(from_api_user_id("4x"), None);
    assert_eq!(from_api_user_id(""), None);
    for id in [0i64, 1, -1, i64::MAX, i64::MIN] {
        assert_eq!(from_api_user_id(&to_api_user_id(id)), Some(id));
    }
}

#[test]
fn login_requires_both_fields() {
    assert_eq!(login_params(None, Some("x".into())).err(), Some(AuthError::InvalidParams));
    assert_eq!(login_params(Some("a".into()), Some(String::new())).err(), Some(AuthError::InvalidParams));
    let (u, h) = login_params(Some("admin".into()), Some("admin".into())).unwrap();
    assert_eq!(u, "admin");
    assert_eq!(h, "21232f297a57a5a743894a0e4a801fc3");
    assert_eq!(AuthError::BadCredentials.code(), 1000);
    assert_eq!(AuthError::TokenMissing.code(), 66666);
    assert_eq!(AuthError::InvalidParams.message(), "参数校验失败！");
}

#[test]
fn tokens_and_routes() {
    let (t, r) = token_pair("u1", "u2");
    assert_eq!(t, "__TOKEN_u1__");
    assert_eq!(r, "__REFRESH_TOKEN_u2__");
    assert_eq!(check_token(""), Err(AuthError::TokenMissing));
    assert_eq!(check_token("abc"), Ok(()));
    assert_eq!(home_route(None), "dashboard_analysis");
    assert_eq!(home_route(Some("home".into())), "home");
    assert_eq!(routes_user_id(Some("12".into())), Ok(12));
    assert_eq!(routes_user_id(None), Err(AuthError::InvalidParams));
}

#[test]
fn account_creation() {
    assert_eq!(new_user(None, Some("p".into()), None, None).err(), Some(AuthError::InvalidParams));
    assert_eq!(new_user(Some("u".into()), Some(String::new()), None, None).err(), Some(AuthError::PasswordRequired));
    let u = new_user(Some("u".into()), Some("123456".into()), None, None).unwrap();
    assert_eq!((u.user_name.as_str(), u.user_status.as_str(), u.role_id), ("u", "1", 3));
    assert_eq!(u.password_hash, "e10adc3949ba59abbe56e057f20f883e");
    assert_eq!(password_update(Some(String::new())), None);
    assert_eq!(password_update(None), None);
    assert_eq!(password_update(Some("admin".into())), Some("21232f297a57a5a743894a0e4a801fc3".into()));
    assert_eq!(shown_user_name(None, "bob".into()), "bob");
    assert_eq!(shown_user_name(Some("Bobby".into()), "bob".into()), "Bobby");
}

#[test]
fn route_tree_of_menus() {
    // (id, parent): 1 and 4 at the top, 2 and 3 under 1, 5 under 2
    let menus = vec![(1, 0), (2, 1), (3, 1), (4, 0), (5, 2)];
    let tree = build_route_tree(&menus, 0);
    assert_eq!(tree.len(), 2);
    assert_eq!(tree[0].index, 0);
    assert_eq!(tree[1].index, 3);
    assert_eq!(tree[0].children.iter().map(|n| n.index).collect::<Vec<_>>(), vec![1, 2]);
    assert_eq!(tree[0].children[0].children[0].index, 4);
    assert!(tree[1].children.is_empty());
    let flags = route_flags(1, 0, 3);
    assert!(flags.requires_auth && !flags.hide);
    assert_eq!(flags.order, Some(3));
    assert_eq!(route_flags(0, 1, 0).order, None);
}
