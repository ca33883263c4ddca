use phpvm::discovery::{releases_from_captures, releases_from_page};

fn cap(a: &str, b: &str, p: &str, vs: &str) -> Vec<Option<String>> {
    vec![
        Some(format!("php-{}.{}.{}-Win32-{}-x64.zip", a, b, p, vs)),
        Some(a.to_string()),
        Some(b.to_string()),
        Some(p.to_string()),
        Some(vs.to_string()),
    ]
}

#[test]
fn page_matches_become_releases() {
    let caps = vec![
        cap("8", "3", "14", "vs16"),
        cap("8", "3", "14", "vs17"),
        cap("8", "0", "30", "vs16"),
        cap("7", "4", "33", "vc15"),
        cap("7", "4", "33", "vs16"),
    ];
    let r = releases_from_captures(&caps);
    assert_eq!(r.len(), 2);
    assert_eq!(r[0].version, "8.3.14");
    assert_eq!(r[0].url, "https://windows.php.net/downloads/releases/php-8.3.14-Win32-vs17-x64.zip");
    assert_eq!(r[1].version, "7.4.33");
    assert_eq!(r[1].url, "https://windows.php.net/downloads/releases/php-7.4.33-Win32-vc15-x64.zip");
}

#[test]
fn release_page_is_read() {
    let page = "<a href=\"php-7.4.33-Win32-vc15-x64.zip\">x</a>\n\
                <a href=\"php-8.2.10-nts-Win32-vs16-x64.zip\">y</a>\n\
                <a href=\"php-8.2.10-Win32-vs16-x64-nts.zip\">z</a>\n\
                <a href=\"php-8.3.1-Win32-vs16-x64.zip\">w</a>";
    let r = releases_from_page(page);
    let names: Vec<String> = r.iter().map(|v| v.version.clone()).collect();
    assert_eq!(names, vec!["8.3.1", "8.2.10", "7.4.33"]);
    assert_eq!(r[0].eol_date, Some("2027-12-31".to_string()));
    assert_eq!(r[2].download_url, Some("https://windows.php.net/downloads/releases/php-7.4.33-Win32-vc15-x64.zip".to_string()));
    assert!(releases_from_page("nothing here").is_empty());
}

#[test]
fn version_table_page_is_read() {
    let page = "<table>\n\
        <tr><td><a href=\"/php/8.3/\">PHP 8.3</a></td><td>8.3.14</td><td>End of security fixes December 31, 2027</td></tr>\n\
        <tr><td><a href=\"/php/8.2/\">PHP 8.2</a></td><td>8.2.26 8.2.25</td><td>End of security fixes 2026-12-31</td></tr>\n\
        <tr><td>0.1.2 9.9.0</td></tr>\n\
        </table>";
    let r = phpvm::discovery::releases_from_version_table(page);
    let names: Vec<String> = r.iter().map(|v| v.version.clone()).collect();
    assert_eq!(names, vec!["8.3.14", "8.2.26"]);
    assert_eq!(r[0].eol_date, Some("2027-12-31".to_string()));
    assert_eq!(r[1].eol_date, Some("2026-12-31".to_string()));
    assert_eq!(
        r[1].download_url,
        Some("https://windows.php.net/downloads/releases/php-8.2.26-Win32-vs16-x64.zip".to_string())
    );
    assert!(phpvm::discovery::releases_from_version_table("no versions").is_empty());
}
