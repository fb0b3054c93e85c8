use lingchat::workshop::{
    cache_usable, enrich_discussion, graphql_outcome, graphql_token, parse_avatar, parse_description, parse_tags,
    rate_limit_message, Discussion, DiscussionAuthor, DiscussionCategory,
};

#[test]
fn avatars_are_the_first_markdown_image() {
    assert_eq!(parse_avatar("# Title\n![头像](https://x/a.png)\nmore"), Some("https://x/a.png".to_string()));
    assert_eq!(parse_avatar("![](u) ![a](b)"), Some("u".to_string()));
    assert_eq!(parse_avatar("![a]() ![b](c)"), Some("c".to_string()));
    assert_eq!(parse_avatar("![a] (x)"), None);
    assert_eq!(parse_avatar("no image"), None);
}

#[test]
fn descriptions_are_read_under_their_heading() {
    assert_eq!(
        parse_description("## 简介\n这是一个角色\n\n## 标签\n可爱 温柔"),
        Some("这是一个角色".to_string())
    );
    assert_eq!(parse_description("##介绍\n文本"), Some("文本".to_string()));
    assert_eq!(parse_description("## 相关信息 \n多行\n内容\n"), Some("多行\n内容".to_string()));
    assert_eq!(parse_description("## 介绍\n\n"), None);
    assert_eq!(parse_description("x ## 介绍\n文本"), None);
    assert_eq!(parse_description("## 其他\n文本"), None);
}

#[test]
fn tags_are_the_words_under_their_heading() {
    assert_eq!(
        parse_tags("## 标签\r\n可爱  温柔\r\n## 其他\r\nx"),
        vec!["可爱".to_string(), "温柔".to_string()]
    );
    assert_eq!(parse_tags("## 标签\n"), Vec::<String>::new());
    assert_eq!(parse_tags("无"), Vec::<String>::new());
}

#[test]
fn discussions_are_enriched_from_their_body() {
    let d = Discussion {
        number: 7,
        title: "灵灵".to_string(),
        body: "![a](https://img/a.png)\r\n## 描述\r\n温柔的角色\r\n## 标签\r\n温柔 治愈".to_string(),
        html_url: "https://github.com/x/7".to_string(),
        category: DiscussionCategory { name: "角色".to_string() },
        author: Some(DiscussionAuthor { login: "me".to_string() }),
        created_at: "2024-01-01".to_string(),
        upvotes: 3,
        has_upvotes: true,
        reactions_upvotes: 0,
        avatar_url: None,
        description: None,
        tags: vec![],
    };
    let e = enrich_discussion(d);
    assert_eq!(e.avatar_url.as_deref(), Some("https://img/a.png"));
    assert_eq!(e.description.as_deref(), Some("温柔的角色"));
    assert_eq!(e.tags, vec!["温柔".to_string(), "治愈".to_string()]);
    assert_eq!(e.number, 7);
    assert_eq!(e.upvotes, 3);
}

#[test]
fn fetching_decisions() {
    assert_eq!(graphql_token(Some("  t ")), Some("t".to_string()));
    assert_eq!(graphql_token(Some("  ")), None);
    assert_eq!(graphql_token(None), None);
    assert!(cache_usable(10, true, true));
    assert!(!cache_usable(400, true, true));
    assert!(!cache_usable(10, false, true));
    assert_eq!(graphql_outcome(Some(&vec!["bad".to_string()]), true), Err("GraphQL 错误: bad".to_string()));
    assert_eq!(graphql_outcome(Some(&vec![]), false), Err("GraphQL 返回空数据".to_string()));
    assert_eq!(graphql_outcome(None, true), Ok(()));
}

#[test]
fn rate_limits_say_when_to_retry() {
    assert_eq!(
        rate_limit_message(Some("0"), Some(7300), 100, 403, "Forbidden"),
        "GitHub API 请求频率已达上限（60 次/小时），请在 2 小时 后重试。\n小提示：可在高级设置中配置 GitHub Token 解除限制。"
    );
    assert!(rate_limit_message(Some("0"), None, 0, 403, "Forbidden").contains("一段时间"));
    assert!(rate_limit_message(Some("0"), Some(50), 100, 403, "Forbidden").contains("请在 0 秒 后重试"));
    assert!(rate_limit_message(Some("0"), Some(220), 100, 403, "Forbidden").contains("请在 2 分钟 后重试"));
    assert_eq!(
        rate_limit_message(None, None, 0, 500, "Internal Server Error"),
        "GitHub API 返回 500 Internal Server Error（剩余 ? 次）"
    );
}
