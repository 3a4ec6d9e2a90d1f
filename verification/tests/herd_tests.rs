use std::path::PathBuf;

use wickeban_core::herd::parse_herd_links_output;

fn parse(output: &str, path: &PathBuf) -> Option<String> {
    parse_herd_links_output(output, path.to_str().unwrap())
}

#[test]
fn test_parse_real_herd_links_output() {
    let output = r#"
+-------------------------------------------------+-----+--------------------------------------------------------------+-------------------------------------------------------------------------------------------------+-------------+----------+
| Site                                            | SSL | URL                                                          | Path                                                                                            | PHP Version |          |
+-------------------------------------------------+-----+--------------------------------------------------------------+-------------------------------------------------------------------------------------------------+-------------+----------+
| maisonneptune                                   |     | http://maisonneptune.test                                    | /Users/dev/Projects/maisonneptune                                                               | 8.4         | v22.14.0 |
| maisonneptune-feature_careers_page              |     | http://maisonneptune-feature_careers_page.test               | /Users/dev/Projects/maisonneptune-worktrees/feature_careers_page                                | 8.4         | v22.14.0 |
| pokemontcg-fix_shop_set_filter                  |  X  | https://pokemontcg-fix_shop_set_filter.test                  | /Users/dev/Projects/PokemonTCG-worktrees/fix_shop_set_filter                                    | 8.4         | 22       |
+-------------------------------------------------+-----+--------------------------------------------------------------+-------------------------------------------------------------------------------------------------+-------------+----------+
"#;

    // Match by worktree path
    let path = PathBuf::from("/Users/dev/Projects/maisonneptune-worktrees/feature_careers_page");
    let result = parse(output, &path);
    assert_eq!(
        result,
        Some("http://maisonneptune-feature_careers_page.test".to_string())
    );

    // Match HTTPS site
    let path = PathBuf::from("/Users/dev/Projects/PokemonTCG-worktrees/fix_shop_set_filter");
    let result = parse(output, &path);
    assert_eq!(
        result,
        Some("https://pokemontcg-fix_shop_set_filter.test".to_string())
    );

    // Match main repo
    let path = PathBuf::from("/Users/dev/Projects/maisonneptune");
    let result = parse(output, &path);
    assert_eq!(result, Some("http://maisonneptune.test".to_string()));
}

#[test]
fn test_parse_herd_links_no_match() {
    let output = r#"
+-----------+-----+---------------------------+----------------------------------+-------------+----+
| Site      | SSL | URL                       | Path                             | PHP Version |    |
+-----------+-----+---------------------------+----------------------------------+-------------+----+
| other-app |     | http://other-app.test     | /Users/dev/Projects/other-app    | 8.4         | .. |
+-----------+-----+---------------------------+----------------------------------+-------------+----+
"#;

    let path = PathBuf::from("/Users/dev/worktrees/feature-branch");
    let result = parse(output, &path);
    assert_eq!(result, None);
}

#[test]
fn herd_builds_url_from_site_name_when_url_column_empty() {
    let output = "| mysite |  |  | /srv/mysite | 8.4 |\n";
    assert_eq!(
        parse_herd_links_output(output, "/srv/mysite/sub"),
        Some("http://mysite.test".to_string())
    );
}

#[test]
fn herd_path_prefix_is_component_wise() {
    let output = "| a | | http://a.test | /srv/app | 8.4 |\n";
    assert_eq!(parse_herd_links_output(output, "/srv/application"), None);
    assert_eq!(parse_herd_links_output(output, "/srv"), Some("http://a.test".to_string()));
}
