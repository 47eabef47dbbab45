//! The moderation filter against its literal corpus: mention scanning,
//! grapheme statistics and the deletion decision.

use xddmod::rip_bozo::DeleteAction;
use xddmod::rip_bozo::DeleteOutcome;
use xddmod::rip_bozo::Mention;
use xddmod::rip_bozo::Mentions;
use xddmod::rip_bozo::TextStats;
use xddmod::rip_bozo::delete_retry_step;
use xddmod::rip_bozo::remove_mentions;
use xddmod::rip_bozo::should_delete_message;

fn mention(handle: &str, login: &str) -> Mention {
    Mention { handle: handle.to_string(), login: login.to_string() }
}

#[test]
fn test_mentions_new_builds_the_expected_mentions() {
    assert!(Mentions::new("").as_inner().is_empty());
    assert_eq!(Mentions::new("@Fusillicode").as_inner(), &[mention("@Fusillicode", "Fusillicode")]);
    assert_eq!(Mentions::new("@Fusilli code").as_inner(), &[mention("@Fusilli", "Fusilli")]);
    assert_eq!(
        Mentions::new("@Fusilli @code").as_inner(),
        &[mention("@Fusilli", "Fusilli"), mention("@code", "code")]
    );
    assert_eq!(
        Mentions::new("@Fusilli@code").as_inner(),
        &[mention("@Fusilli", "Fusilli"), mention("@code", "code")]
    );
    assert_eq!(Mentions::new("@Fusilli, code").as_inner(), &[mention("@Fusilli", "Fusilli")]);
    assert_eq!(Mentions::new("Fusilli, @code").as_inner(), &[mention("@code", "code")]);
}

#[test]
fn test_text_stats_should_delete_works_as_expected() {
    assert!(!TextStats::new("").should_be_deleted());
    assert!(!TextStats::new(" ").should_be_deleted());
    assert!(!TextStats::new("D:").should_be_deleted());
    assert!(!TextStats::new(":D").should_be_deleted());
    assert!(!TextStats::new(":)").should_be_deleted());
    assert!(!TextStats::new(":) :) :) :) :) :) :) :) :)").should_be_deleted());
    assert!(!TextStats::new("hola").should_be_deleted());
    assert!(!TextStats::new("...").should_be_deleted());
    assert!(!TextStats::new("......").should_be_deleted());
    assert!(!TextStats::new(".........").should_be_deleted());
    assert!(!TextStats::new("!!!").should_be_deleted());
    assert!(!TextStats::new("!!!!!!").should_be_deleted());
    assert!(!TextStats::new("!!!!!!!!!").should_be_deleted());
    assert!(!TextStats::new("???").should_be_deleted());
    assert!(!TextStats::new("??????").should_be_deleted());
    assert!(!TextStats::new("?????????").should_be_deleted());
    assert!(!TextStats::new("WTF!?!?!?!??!?!?!???!?!?!?").should_be_deleted());
    assert!(!TextStats::new("@@").should_be_deleted());
    assert!(!TextStats::new("\u{2026}").should_be_deleted());
    assert!(!TextStats::new("\u{2026}o").should_be_deleted());
    assert!(!TextStats::new("\"El presidente del Congreso, que a\u{fa}n no ha manifestado si se adherir\u{e1} o no a la iniciativa del\n        ministro de Industria, no quiso dar trascendencia al asunto, \u{ab}que no tiene m\u{e1}s valor que el de una an\u{e9}cdota y\n        el de una corbata regalada\u{bb}.").should_be_deleted());
    assert!(!TextStats::new("\u{1f972}\u{1f972}\u{1f972}\u{1f972}\u{1f972}\u{1f972}\u{1f972}\u{1f972}\u{1f972}\u{1f972}\u{1f972}\u{1f972}\u{1f972}\u{1f972}\u{1f972}\u{1f972}\u{1f972}\u{1f972}\u{1f972}\u{1f972}\u{1f972}\u{1f972}\u{1f972}\u{1f972}").should_be_deleted());
    assert!(!TextStats::new("\u{1f972} \u{1f972} \u{1f972} \u{1f972} \u{1f972} \u{1f972} \u{1f972} \u{1f972} \u{1f972} \u{1f972} \u{1f972} \u{1f972} \u{1f972} \u{1f972} \u{1f972} \u{1f972} \u{1f972} \u{1f972} \u{1f972} \u{1f972} \u{1f972} \u{1f972} \u{1f972} \u{1f972}").should_be_deleted());
    assert!(!TextStats::new("WHAT?!!! \u{1f525}\u{1f525}\u{1f525}\u{1f5e3}\u{fe0f}\u{1f4af}\u{1f4af}\u{1f4af}").should_be_deleted());
    assert!(!TextStats::new("\u{1f972} \u{e0000}").should_be_deleted());
    assert!(!TextStats::new("A \u{e0000}").should_be_deleted());
    assert!(!TextStats::new("\u{ff1f}").should_be_deleted());
    assert!(!TextStats::new("foo \u{ff1f}").should_be_deleted());
    assert!(!TextStats::new("\u{43e}").should_be_deleted());
    assert!(!TextStats::new("\u{43e}7").should_be_deleted());
    assert!(TextStats::new("\u{2026}\u{f6}").should_be_deleted());
    assert!(TextStats::new("\u{1f972}\u{1f972}\u{1f972}\u{1f972}\u{1f972}\u{1f972}\u{1f972}\u{1f972}\u{1f972}\u{1f972}\u{1f972}\u{1f972}\u{1f972}\u{1f972}\u{1f972}\u{1f972}\u{1f972}\u{1f972}\u{1f972}\u{1f972}\u{1f972}\u{1f972}\u{1f972}\u{1f972}\u{1f972}\u{1f972}\u{1f972}\u{1f972}\u{1f972}\u{1f972}\u{1f972}\u{1f972}\u{1f972}\u{1f972}\u{1f972}\u{1f972}\u{1f972}\u{1f972}\u{1f972}\u{1f972}").should_be_deleted());
    assert!(TextStats::new("\u{1f972} \u{1f972} \u{1f972} \u{1f972} \u{1f972} \u{1f972} \u{1f972} \u{1f972} \u{1f972} \u{1f972} \u{1f972} \u{1f972} \u{1f972} \u{1f972} \u{1f972} \u{1f972} \u{1f972} \u{1f972} \u{1f972} \u{1f972} \u{1f972} \u{1f972} \u{1f972} \u{1f972} \u{1f972} \u{1f972} \u{1f972} \u{1f972} \u{1f972} \u{1f972} \u{1f972} \u{1f972} \u{1f972} \u{1f972}\n        \u{1f972} \u{1f972} \u{1f972} \u{1f972} \u{1f972} \u{1f972}").should_be_deleted());
    assert!(TextStats::new("\n                \u{2705}\u{2705}\u{2705}\u{2705}\u{2705}\u{2705}\u{2705}\u{2705}\u{2705}\u{2705}\u{2705}\u{2705}\n                \u{2705}\u{2705}\u{2705}\u{2705}\u{2705}\u{2705}\u{2705}\u{2705}\u{2705}\u{2705}\u{2705}\u{2705}\n                \u{2705}\u{2705}\u{2b1b}\u{2b1b}\u{2b1b}\u{2705}\u{2705}\u{2b1b}\u{2b1b}\u{2b1b}\u{2705}\u{2705}\n                \u{2705}\u{2705}\u{2b1b}\u{2b1b}\u{2b1b}\u{2705}\u{2705}\u{2b1b}\u{2b1b}\u{2b1b}\u{2705}\u{2705}\n                \u{2705}\u{2705}\u{2705}\u{2705}\u{2705}\u{2b1b}\u{2b1b}\u{2705}\u{2705}\u{2705}\u{2705}\u{2705}\n                \u{2705}\u{2705}\u{2705}\u{2b1b}\u{2b1b}\u{2b1b}\u{2b1b}\u{2b1b}\u{2b1b}\u{2705}\u{2705}\u{2705}\n                \u{2705}\u{2705}\u{2705}\u{2b1b}\u{2b1b}\u{2b1b}\u{2b1b}\u{2b1b}\u{2b1b}\u{2705}\u{2705}\u{2705}\n                \u{2705}\u{2705}\u{2705}\u{2b1b}\u{2b1b}\u{2705}\u{2705}\u{2b1b}\u{2b1b}\u{2705}\u{2705}\u{2705}\n                \u{2705}\u{2705}\u{2705}\u{2705}\u{2705}\u{2705}\u{2705}\u{2705}\u{2705}\u{2705}\u{2705}\u{2705}\n            ").should_be_deleted());
    assert!(TextStats::new("\n                \u{28bf}\u{28ff}\u{28ff}\u{28ff}\u{28ed}\u{2839}\u{281b}\u{281b}\u{281b}\u{28bf}\u{28ff}\u{28ff}\u{28ff}\u{28ff}\u{287f}\u{28ff}\u{2837}\u{2836}\u{283f}\u{28bb}\u{28ff}\u{28db}\u{28e6}\u{28d9}\u{283b}\u{28ff}\n                \u{28ff}\u{28ff}\u{28bf}\u{28ff}\u{2801}\u{2800}\u{2800}\u{2840}\u{2800}\u{2808}\u{28ff}\u{289b}\u{28fd}\u{28dc}\u{282f}\u{28fd}\u{2800}\u{2800}\u{2800}\u{2800}\u{2819}\u{28bf}\u{28f7}\u{28fb}\u{2840}\u{28bf}\n                \u{2801}\u{281b}\u{28bf}\u{28fe}\u{28d6}\u{28e4}\u{2840}\u{2800}\u{2880}\u{2870}\u{283f}\u{28b7}\u{28f6}\u{28ff}\u{2847}\u{283b}\u{28d6}\u{28d2}\u{28d2}\u{28f6}\u{28ff}\u{28ff}\u{285f}\u{2899}\u{28f6}\u{28ee}\n                \u{28e4}\u{2800}\u{2800}\u{281b}\u{283b}\u{2817}\u{283f}\u{283f}\u{28ef}\u{2846}\u{28ff}\u{28db}\u{28ff}\u{287f}\u{283f}\u{282e}\u{2876}\u{283c}\u{281f}\u{2819}\u{280a}\u{2801}\u{2800}\u{2838}\u{28a3}\u{28ff}\n                \u{28ff}\u{28f7}\u{2840}\u{2800}\u{2800}\u{2800}\u{2800}\u{2820}\u{282d}\u{28c1}\u{2849}\u{28a9}\u{28e5}\u{2864}\u{2825}\u{28e4}\u{2876}\u{28d2}\u{2800}\u{2800}\u{2800}\u{2800}\u{2800}\u{28b0}\u{28ff}\u{28ff}\n                \u{28ff}\u{28ff}\u{287d}\u{2844}\u{2800}\u{2800}\u{2800}\u{28bf}\u{28ff}\u{28c6}\u{28ff}\u{28e7}\u{28a1}\u{28fe}\u{28ff}\u{2847}\u{28fe}\u{28ff}\u{2847}\u{2800}\u{2800}\u{2800}\u{2800}\u{28ff}\u{2847}\u{2803}\n                \u{28ff}\u{28ff}\u{28f7}\u{28fb}\u{28c6}\u{2884}\u{2800}\u{2808}\u{2809}\u{2809}\u{281b}\u{281b}\u{2818}\u{281b}\u{281b}\u{281b}\u{2819}\u{281b}\u{2801}\u{2800}\u{2800}\u{2800}\u{2800}\u{28ff}\u{2847}\u{28b8}\n                \u{2881}\u{28ff}\u{28ff}\u{28f7}\u{28c1}\u{28f7}\u{28c1}\u{2826}\u{2840}\u{2800}\u{2800}\u{2800}\u{2800}\u{2800}\u{2800}\u{2800}\u{2840}\u{2880}\u{2800}\u{2800}\u{2800}\u{2800}\u{2800}\u{281b}\u{28ff}\u{2808}\n                \u{28e6}\u{2851}\u{281b}\u{28df}\u{28bf}\u{287f}\u{28ff}\u{28f7}\u{28c1}\u{28a7}\u{2840}\u{2800}\u{2800}\u{28f6}\u{28f8}\u{2847}\u{28ff}\u{28b8}\u{28e7}\u{2800}\u{2800}\u{2800}\u{2800}\u{28b8}\u{287f}\u{2846}\n                \u{28ff}\u{28ff}\u{28f7}\u{28ee}\u{28ed}\u{28c1}\u{285b}\u{283b}\u{28bf}\u{28f7}\u{283f}\u{28f6}\u{28f6}\u{28ec}\u{28ec}\u{28c1}\u{28c9}\u{28c0}\u{28c0}\u{28c1}\u{2864}\u{28b4}\u{28fa}\u{28fe}\u{28fd}\u{2847}\n            ").should_be_deleted());
    assert!(TextStats::new("\u{28bf}\u{28ff}\u{28ff}\u{28ff}\u{28ed}\u{2839}\u{281b}\u{281b}\u{281b}\u{28bf}\u{28ff}\u{28ff}\u{28ff}\u{28ff}\u{287f}\u{28ff}\u{2837}\u{2836}\u{283f}\u{28bb}\u{28ff}\u{28db}\u{28e6}\u{28d9}\u{283b}\u{28ff} \u{28ff}\u{28ff}\u{28bf}\u{28ff}\u{2801}\u{2800}\u{2800}\u{2840}\u{2800}\u{2808}\u{28ff}\u{289b}\u{28fd}\u{28dc}\u{282f}\u{28fd}\u{2800}\u{2800}\u{2800}\u{2800}\u{2819}\u{28bf}\u{28f7}\u{28fb}\u{2840}\u{28bf} \u{2801}\u{281b}\u{28bf}\u{28fe}\u{28d6}\u{28e4}\u{2840}\u{2800}\u{2880}\u{2870}\u{283f}\u{28b7}\u{28f6}\u{28ff}\u{2847}\u{283b}\u{28d6}\u{28d2}\u{28d2}\u{28f6}\u{28ff}\u{28ff}\u{285f}\u{2899}\u{28f6}\u{28ee} \u{28e4}\u{2800}\u{2800}\u{281b}\u{283b}\u{2817}\u{283f}\u{283f}\u{28ef}\u{2846}\u{28ff}\u{28db}\u{28ff}\u{287f}\u{283f}\u{282e}\u{2876}\u{283c}\u{281f}\u{2819}\u{280a}\u{2801}\u{2800}\u{2838}\u{28a3}\u{28ff} \u{28ff}\u{28f7}\u{2840}\u{2800}\u{2800}\u{2800}\u{2800}\u{2820}\u{282d}\u{28c1}\u{2849}\u{28a9}\u{28e5}\u{2864}\u{2825}\u{28e4}\u{2876}\u{28d2}\u{2800}\u{2800}\u{2800}\u{2800}\u{2800}\u{28b0}\u{28ff}\u{28ff} \u{28ff}\u{28ff}\u{287d}\u{2844}\u{2800}\u{2800}\u{2800}\u{28bf}\u{28ff}\u{28c6}\u{28ff}\u{28e7}\u{28a1}\u{28fe}\u{28ff}\u{2847}\u{28fe}\u{28ff}\u{2847}\u{2800}\u{2800}\u{2800}\u{2800}\u{28ff}\u{2847}\u{2803} \u{28ff}\u{28ff}\u{28f7}\u{28fb}\u{28c6}\u{2884}\u{2800}\u{2808}\u{2809}\u{2809}\u{281b}\u{281b}\u{2818}\u{281b}\u{281b}\u{281b}\u{2819}\u{281b}\u{2801}\u{2800}\u{2800}\u{2800}\u{2800}\u{28ff}\u{2847}\u{28b8} \u{2881}\u{28ff}\u{28ff}\u{28f7}\u{28c1}\u{28f7}\u{28c1}\u{2826}\u{2840}\u{2800}\u{2800}\u{2800}\u{2800}\u{2800}\u{2800}\u{2800}\u{2840}\u{2880}\u{2800}\u{2800}\u{2800}\u{2800}\u{2800}\u{281b}\u{28ff}\u{2808} \u{28e6}\u{2851}\u{281b}\u{28df}\u{28bf}\u{287f}\u{28ff}\u{28f7}\u{28c1}\u{28a7}\u{2840}\u{2800}\u{2800}\u{28f6}\u{28f8}\u{2847}\u{28ff}\u{28b8}\u{28e7}\u{2800}\u{2800}\u{2800}\u{2800}\u{28b8}\u{287f}\u{2846} \u{28ff}\u{28ff}\u{28f7}\u{28ee}\u{28ed}\u{28c1}\u{285b}\u{283b}\u{28bf}\u{28f7}\u{283f}\u{28f6}\u{28f6}\u{28ec}\u{28ec}\u{28c1}\u{28c9}\u{28c0}\u{28c0}\u{28c1}\u{2864}\u{28b4}\u{28fa}\u{28fe}\u{28fd}\u{2847}").should_be_deleted());
    assert!(TextStats::new("\u{28bf}\u{28ff}\u{28ff}\u{28ff}\u{28ed}\u{2839}\u{281b}\u{281b}\u{281b}\u{28bf}\u{28ff}\u{28ff}\u{28ff}\u{28ff}\u{287f}\u{28ff}\u{2837}\u{2836}\u{283f}\u{28bb}\u{28ff}\u{28db}\u{28e6}\u{28d9}\u{283b}\u{28ff}\u{28ff}\u{28ff}\u{28bf}\u{28ff}\u{2801}\u{2800}\u{2800}\u{2840}\u{2800}\u{2808}\u{28ff}\u{289b}\u{28fd}\u{28dc}\u{282f}\u{28fd}\u{2800}\u{2800}\u{2800}\u{2800}\u{2819}\u{28bf}\u{28f7}\u{28fb}\u{2840}\u{28bf}\u{2801}\u{281b}\u{28bf}\u{28fe}\u{28d6}\u{28e4}\u{2840}\u{2800}\u{2880}\u{2870}\u{283f}\u{28b7}\u{28f6}\u{28ff}\u{2847}\u{283b}\u{28d6}\u{28d2}\u{28d2}\u{28f6}\u{28ff}\u{28ff}\u{285f}\u{2899}\u{28f6}\u{28ee}\u{28e4}\u{2800}\u{2800}\u{281b}\u{283b}\u{2817}\u{283f}\u{283f}\u{28ef}\u{2846}\u{28ff}\u{28db}\u{28ff}\u{287f}\u{283f}\u{282e}\u{2876}\u{283c}\u{281f}\u{2819}\u{280a}\u{2801}\u{2800}\u{2838}\u{28a3}\u{28ff}\u{28ff}\u{28f7}\u{2840}\u{2800}\u{2800}\u{2800}\u{2800}\u{2820}\u{282d}\u{28c1}\u{2849}\u{28a9}\u{28e5}\u{2864}\u{2825}\u{28e4}\u{2876}\u{28d2}\u{2800}\u{2800}\u{2800}\u{2800}\u{2800}\u{28b0}\u{28ff}\u{28ff}\u{28ff}\u{28ff}\u{287d}\u{2844}\u{2800}\u{2800}\u{2800}\u{28bf}\u{28ff}\u{28c6}\u{28ff}\u{28e7}\u{28a1}\u{28fe}\u{28ff}\u{2847}\u{28fe}\u{28ff}\u{2847}\u{2800}\u{2800}\u{2800}\u{2800}\u{28ff}\u{2847}\u{2803}\u{28ff}\u{28ff}\u{28f7}\u{28fb}\u{28c6}\u{2884}\u{2800}\u{2808}\u{2809}\u{2809}\u{281b}\u{281b}\u{2818}\u{281b}\u{281b}\u{281b}\u{2819}\u{281b}\u{2801}\u{2800}\u{2800}\u{2800}\u{2800}\u{28ff}\u{2847}\u{28b8}\u{2881}\u{28ff}\u{28ff}\u{28f7}\u{28c1}\u{28f7}\u{28c1}\u{2826}\u{2840}\u{2800}\u{2800}\u{2800}\u{2800}\u{2800}\u{2800}\u{2800}\u{2840}\u{2880}\u{2800}\u{2800}\u{2800}\u{2800}\u{2800}\u{281b}\u{28ff}\u{2808}\u{28e6}\u{2851}\u{281b}\u{28df}\u{28bf}\u{287f}\u{28ff}\u{28f7}\u{28c1}\u{28a7}\u{2840}\u{2800}\u{2800}\u{28f6}\u{28f8}\u{2847}\u{28ff}\u{28b8}\u{28e7}\u{2800}\u{2800}\u{2800}\u{2800}\u{28b8}\u{287f}\u{2846}\u{28ff}\u{28ff}\u{28f7}\u{28ee}\u{28ed}\u{28c1}\u{285b}\u{283b}\u{28bf}\u{28f7}\u{283f}\u{28f6}\u{28f6}\u{28ec}\u{28ec}\u{28c1}\u{28c9}\u{28c0}\u{28c0}\u{28c1}\u{2864}\u{28b4}\u{28fa}\u{28fe}\u{28fd}\u{2847}").should_be_deleted());
    assert!(TextStats::new("\n                \u{25ac}\u{25ac}\u{25ac}\u{25ac}\u{25ac}.\u{25d9}.\u{25ac}\u{25ac}\u{25ac}\u{25ac}\u{25ac}\n                \u{2582}\u{2584}\u{2584}\u{2593}\u{2584}\u{2584}\u{2582}\n            \u{25e2}\u{25e4}\u{2588}\u{2580}\u{2580}\u{2588}\u{2588}\u{2588}\u{2588}\u{2584}\u{2584}\u{2584}\u{2584}\u{2584}\u{2584} \u{25e2}\u{25e4}\n            \u{2588}\u{2584} \u{2588} \u{2588}\u{2584} \u{2588}\u{2588}\u{2588}\u{2580}\u{2580}\u{2580}\u{2580}\u{2580}\u{2580}\u{2580} \u{256c}\n            \u{25e5} \u{2588}\u{2588}\u{2588}\u{2588}\u{2588} \u{25e4}\n                \u{2541}\u{2541}\u{2569}\u{2541}\u{2541}\u{2569}\u{2541}\n                \u{256c}\u{2541}\u{256c}\n                \u{256c}\u{2541}\u{256c} just dropped down to say\n                \u{256c}\u{2541}\u{256c}\n                \u{256c}\u{2541}\u{256c} I forgor\n                \u{256c}\u{2541}\u{256c}\n            \u{1f480}/ \u{256c}\u{2541}\u{256c}\n            /\u{258c}  \u{256c}\u{2541}\u{256c}\n            / \\\n            ").should_be_deleted());
    assert!(TextStats::new("\n                \u{2014}\u{2014}\u{2014}\u{2014}\u{2014}\u{2014}\u{2014}\u{2014}\u{2014}\u{2014}\u{2014}No stitches?\u{2014}\u{2014}\u{2014}\u{2014}\u{2014}\u{2014}\u{2014}\u{2014}\u{2014}\u{2014}\u{2014}\n                \u{2800}\u{28c1}\u{28bd}\u{28aa}\u{28a3}\u{28a3}\u{28a3}\u{28ab}\u{287a}\u{2875}\u{28c1}\u{286e}\u{28d7}\u{28b7}\u{28bd}\u{28bd}\u{28bd}\u{28ee}\u{2877}\u{287d}\u{28dc}\u{28dc}\u{28ae}\u{28ba}\u{28dc}\u{28b7}\u{28bd}\u{2881}\u{287d}\u{28c1}\n                \u{2838}\u{2878}\u{281c}\u{2815}\u{2815}\u{2801}\u{2881}\u{2887}\u{2881}\u{28bd}\u{28ba}\u{28ea}\u{2873}\u{2841}\u{28c1}\u{28c1}\u{28af}\u{2881}\u{287f}\u{28df}\u{28f7}\u{28f3}\u{28af}\u{2877}\u{28fd}\u{28bd}\u{28af}\u{28f3}\u{28eb}\u{2807}\n                \u{2800}\u{2800}\u{2880}\u{2880}\u{2884}\u{28ac}\u{28aa}\u{286a}\u{2841}\u{28c6}\u{2848}\u{281a}\u{281c}\u{2815}\u{2807}\u{2817}\u{2801}\u{2895}\u{28af}\u{28ab}\u{28c1}\u{28ef}\u{28ff}\u{28fb}\u{287d}\u{28c1}\u{2897}\u{28d7}\u{2801}\u{2800}\n                \u{2800}\u{282a}\u{286a}\u{286a}\u{28ea}\u{28aa}\u{28ba}\u{28b8}\u{28a2}\u{2893}\u{2886}\u{28a4}\u{2880}\u{2800}\u{2800}\u{2800}\u{2800}\u{2808}\u{288a}\u{2881}\u{287e}\u{28ff}\u{286f}\u{28c1}\u{28ae}\u{2837}\u{2801}\u{2800}\u{2800}\n                \u{2800}\u{2800}\u{2800}\u{2808}\u{280a}\u{2806}\u{2843}\u{2815}\u{2895}\u{2887}\u{2887}\u{2887}\u{2887}\u{2887}\u{2881}\u{2881}\u{2881}\u{2886}\u{2884}\u{2800}\u{2891}\u{28fd}\u{28ff}\u{2881}\u{2832}\u{2809}\u{2800}\u{2800}\u{2800}\u{2800}\n                \u{2800}\u{2800}\u{2800}\u{2800}\u{2800}\u{287f}\u{2802}\u{2820}\u{2800}\u{2847}\u{2887}\u{2815}\u{2888}\u{28c0}\u{2800}\u{2801}\u{2821}\u{2823}\u{2863}\u{286b}\u{28c2}\u{28ff}\u{282f}\u{28aa}\u{2830}\u{2802}\u{2800}\u{2800}\u{2800}\u{2800}\n                \u{2800}\u{2800}\u{2800}\u{2800}\u{2866}\u{2859}\u{2842}\u{2880}\u{28a4}\u{28a3}\u{2823}\u{2848}\u{28fe}\u{2843}\u{2820}\u{2804}\u{2800}\u{2844}\u{28b1}\u{28cc}\u{28f6}\u{2881}\u{288a}\u{2802}\u{2800}\u{2800}\u{2800}\u{2800}\u{2800}\u{2800}\n                \u{2800}\u{2800}\u{2800}\u{2800}\u{2881}\u{2872}\u{28dc}\u{286e}\u{2841}\u{2881}\u{288c}\u{2882}\u{2819}\u{2822}\u{2801}\u{2880}\u{2898}\u{28b5}\u{28fd}\u{28ff}\u{287f}\u{2801}\u{2801}\u{2800}\u{2800}\u{2800}\u{2800}\u{2800}\u{2800}\u{2800}\n                \u{2800}\u{2800}\u{2800}\u{2800}\u{2828}\u{28fa}\u{287a}\u{2855}\u{2855}\u{2871}\u{2851}\u{2846}\u{2855}\u{2845}\u{2855}\u{285c}\u{287c}\u{28bd}\u{287b}\u{2801}\u{2800}\u{2800}\u{2800}\u{2800}\u{2800}\u{2800}\u{2800}\u{2800}\u{2800}\u{2800}\n                \u{2800}\u{2800}\u{2800}\u{2800}\u{28fc}\u{28f3}\u{28eb}\u{28fe}\u{28f5}\u{28d7}\u{2875}\u{2871}\u{2861}\u{28a3}\u{2891}\u{2895}\u{289c}\u{2895}\u{2841}\u{2800}\u{2800}\u{2800}\u{2800}\u{2800}\u{2800}\u{2800}\u{2800}\u{2800}\u{2800}\u{2800}\n                \u{2800}\u{2800}\u{2800}\u{28f4}\u{28ff}\u{28fe}\u{28ff}\u{28ff}\u{28ff}\u{287f}\u{287d}\u{2851}\u{288c}\u{282a}\u{2862}\u{2863}\u{28e3}\u{285f}\u{2800}\u{2800}\u{2800}\u{2800}\u{2800}\u{2800}\u{2800}\u{2800}\u{2800}\u{2800}\u{2800}\u{2800}\n                \u{2800}\u{2800}\u{2800}\u{285f}\u{287e}\u{28ff}\u{28bf}\u{28bf}\u{28b5}\u{28fd}\u{28fe}\u{28fc}\u{28d8}\u{28b8}\u{28b8}\u{28c1}\u{285f}\u{2800}\u{2800}\u{2800}\u{2800}\u{2800}\u{2800}\u{2800}\u{2800}\u{2800}\u{2800}\u{2800}\u{2800}\u{2800}\n                \u{2800}\u{2800}\u{2800}\u{2800}\u{2801}\u{2807}\u{2821}\u{2829}\u{286b}\u{28bf}\u{28c1}\u{287b}\u{286e}\u{28d2}\u{28bd}\u{280b}\u{2800}\u{2800}\u{2800}\u{2800}\u{2800}\u{2800}\u{2800}\u{2800}\u{2800}\u{2800}\u{2800}\u{2800}\u{2800}\u{2800}\n                \u{2014}\u{2014}\u{2014}\u{2014}\u{2014}\u{2014}\u{2014}\u{2014}\u{2014}\u{2014}\u{2014}\u{2014}\u{2014}\u{2014}\u{2014}\u{2014}\u{2014}\u{2014}\u{2014}\u{2014}\u{2014}\u{2014}\u{2014}\u{2014}\u{2014}\u{2014}\u{2014}\u{2014}-\n            ").should_be_deleted());
}

#[test]
fn emoji_wall_boundary_is_twenty_four() {
    let twenty_four = "\u{1f972}".repeat(24);
    let twenty_five = "\u{1f972}".repeat(25);
    assert!(!TextStats::new(&twenty_four).should_be_deleted());
    assert!(TextStats::new(&twenty_five).should_be_deleted());
}

#[test]
fn only_emojis_counts_pure_emoji_messages() {
    assert_eq!(TextStats::new("\u{1f972}\u{1f972}").only_emojis(), Some(2));
    assert_eq!(TextStats::new(" ").only_emojis(), Some(0));
    assert_eq!(TextStats::new("a\u{1f972}").only_emojis(), None);
}

#[test]
fn mentions_are_removed_before_classification() {
    let mentions = Mentions::new("@Fusilli code");
    assert_eq!(remove_mentions("@Fusilli code", &mentions), " code");
    // the braille wall is deleted only for ordinary senders of plain messages
    let wall = "\u{28ff}".repeat(30);
    assert!(should_delete_message(false, false, &wall));
    assert!(!should_delete_message(true, false, &wall));
    assert!(!should_delete_message(false, true, &wall));
    assert!(!should_delete_message(false, false, "hola"));
}

#[test]
fn deletion_is_retried_once_after_a_refresh() {
    assert_eq!(delete_retry_step(false, DeleteOutcome::Deleted), DeleteAction::Done);
    assert_eq!(delete_retry_step(false, DeleteOutcome::Unauthorized), DeleteAction::RefreshAndRetry);
    assert_eq!(delete_retry_step(true, DeleteOutcome::Unauthorized), DeleteAction::GiveUp);
    assert_eq!(delete_retry_step(false, DeleteOutcome::Failed), DeleteAction::GiveUp);
    assert_eq!(delete_retry_step(true, DeleteOutcome::Deleted), DeleteAction::Done);
}
