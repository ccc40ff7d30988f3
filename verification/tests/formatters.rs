use igniter_js::formatting::{describe, FormatError};
use igniter_js::parsers::css::formatter as css;
use igniter_js::parsers::javascript::formatter as js;
use igniter_js::parsers::javascript::helpers::replace_four_spaces_with_tab;

fn app_css() -> &'static str {
    r##"
        body {
                    background-color: #fff;
        }

        /* Test top comment */





        h1 {
        /* Test inner comment */
            font-size: 20px; /* this is for comment */
        }
        "##
}

#[test]
fn test_format_css() {
    match css::format(app_css()) {
        Ok(formatted_code) => {
            println!("Formatted CSS:\n{}", formatted_code);
        }
        Err(error) => {
            println!("Error: {}", error);
        }
    }
}

#[test]
fn test_is_formatted_css() {
    assert!(css::is_formatted(app_css()).is_ok());
    let css_unformatted = "body{background-color:#fff;}h1{font-size:20px;}";
    let css_formatted = r#"body {
  background-color: #fff;
}
h1 {
  font-size: 20px;
}
"#;
    assert_eq!(css::is_formatted(css_unformatted).unwrap(), false);

    let formatted = css::format(css_formatted).unwrap();
    assert_eq!(css::is_formatted(&formatted).unwrap(), true);
}

fn app_js() -> &'static str {
    r##"
        // If you want to use Phoenix channels, run `mix help phx.gen.channel`
        // to get started and then uncomment the line below.
        // import "./user_socket.js"
        // You can include dependencies in two ways.
        //
        // The simplest option is to put them in assets/vendor and
        // import them using relative paths:
        //
        //     import "../vendor/some-package.js"
        //
        // Alternatively, you can `npm install some-package --prefix assets` and import
        // them using a path starting with the package name:
        //
        //     import "some-package"
        //
        // Include phoenix_html to handle method=PUT/DELETE in forms and buttons.
        import "phoenix_html";
        // Establish Phoenix Socket and LiveView configuration.
        import { Socket } from "phoenix";
        import { LiveSocket } from "phoenix_live_view";
        import topbar from "../vendor/topbar";
        import MishkaComponents from "../vendor/mishka_components.js";
        let csrfToken = document.querySelector("meta[name='csrf-token']").getAttribute("content");
        let liveSocket = new LiveSocket("/live", Socket, {
            longPollFallbackMs: 2500,
            params: {
                _csrf_token: csrfToken
            },
            hooks: {
                ...MishkaComponents
            }
        });
        // Show progress bar on live navigation and form submits
        topbar.config({
            barColors: {
                0: "#29d"
            },
            shadowColor: "rgba(0, 0, 0, .3)"
        });
        window.addEventListener("phx:page-loading-start", (_info)=>topbar.show(300));
        window.addEventListener("phx:page-loading-stop", (_info)=>topbar.hide());
        // connect if there are any LiveViews on the page
        liveSocket.connect();
        // expose liveSocket on window for web console debug logs and latency simulation:
        // >> liveSocket.enableDebug()
        // >> liveSocket.enableLatencySim(1000)  // enabled for duration of browser session
        // >> liveSocket.disableLatencySim()
        window.liveSocket = liveSocket;
        "##
}

#[test]
fn test_format_js() {
    match js::format(app_js()) {
        Ok(formatted_code) => {
            println!("Formatted JS:\n{}", formatted_code);
        }
        Err(error) => {
            println!("Error: {}", error);
        }
    }
}

#[test]
fn test_is_formatted_js() {
    assert!(js::is_formatted(app_js()).is_ok());
    let js_code_unformatted = "function test(){console.log('hello world');}";
    let js_code_formatted = r#"function test() {
          console.log("hello world");
        }"#;
    assert_eq!(js::is_formatted(js_code_unformatted).unwrap(), false);

    let formatted = js::format(js_code_formatted).unwrap();
    assert_eq!(js::is_formatted(&formatted).unwrap(), true);
}

#[test]
fn format_js_prints_the_canonical_form() {
    assert_eq!(
        js::format("function test(){console.log('hello world');}").unwrap(),
        "function test() {\n  console.log(\"hello world\");\n}\n"
    );
}

#[test]
fn format_css_prints_the_canonical_form() {
    assert_eq!(
        css::format("body{background-color:#fff;}h1{font-size:20px;}").unwrap(),
        "body {\n  background-color: #fff;\n}\nh1 {\n  font-size: 20px;\n}\n"
    );
}

#[test]
fn format_reports_syntax_errors() {
    assert_eq!(
        js::format("function ("),
        Err("Parsing failed due to syntax errors.".to_string())
    );
    assert_eq!(
        js::is_formatted("function ("),
        Err("Parsing failed due to syntax errors.".to_string())
    );
    assert_eq!(
        css::format("body {"),
        Err("Parsing failed due to syntax errors.".to_string())
    );
    assert_eq!(
        css::is_formatted("body {"),
        Err("Parsing failed due to syntax errors.".to_string())
    );
}

#[test]
fn is_formatted_ignores_white_space_at_the_ends() {
    assert_eq!(
        js::is_formatted("\n\n  function test() {\n  console.log(\"hello world\");\n}  \n\t"),
        Ok(true)
    );
    assert_eq!(
        css::is_formatted("  body {\n  background-color: #fff;\n}\n\n"),
        Ok(true)
    );
}

#[test]
fn four_spaces_become_a_tab() {
    assert_eq!(replace_four_spaces_with_tab("    a"), "\ta");
    assert_eq!(replace_four_spaces_with_tab("      a    b   c"), "\t  a\tb   c");
    assert_eq!(replace_four_spaces_with_tab("        "), "\t\t");
    assert_eq!(replace_four_spaces_with_tab("   "), "   ");
    assert_eq!(replace_four_spaces_with_tab(""), "");
}

#[test]
fn a_failure_is_described_by_its_message() {
    assert_eq!(describe(FormatError::Syntax), "Parsing failed due to syntax errors.");
    assert_eq!(
        describe(FormatError::Format("no way".to_string())),
        "Formatting failed: no way"
    );
    assert_eq!(describe(FormatError::Print("too wide".to_string())), "too wide");
}
