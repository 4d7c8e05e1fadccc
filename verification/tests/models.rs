use swash::models::{Cause, FreedomScores, Freedoms, Government, Nation, Officer, Region};

fn s(x: &str) -> String {
    x.to_string()
}

fn nation(name: &str, unstatus: &str) -> Nation {
    Nation {
        name: s(name),
        canon_name: String::new(),
        classification: s("Democratic Socialists"),
        fullname: s("The Republic of Testlandia"),
        motto: s("Test motto"),
        category: s("Democratic Socialists"),
        unstatus: s(unstatus),
        is_wa: false,
        is_delegate: false,
        endorsements: vec![s("maxtopia")],
        issues_answered: 12,
        freedoms: Freedoms { civilrights: s("Good"), economy: s("Strong"), polfreedom: s("Excellent") },
        region: s("the_north_pacific"),
        population: 1500,
        tax: 22.5f64.to_bits(),
        animal: s("cat"),
        currency: s("dollar"),
        demonym: s("Testlandian"),
        demonym2: s("Testlandian"),
        demonym2plural: s("Testlandians"),
        flag_url: s("https://example.org/flag.png"),
        major_industry: s("Book Publishing"),
        govt_priority: s("Education"),
        government: Government {
            admin: 1.0f64.to_bits(),
            defence: 2.0f64.to_bits(),
            education: 3.0f64.to_bits(),
            environment: 4.0f64.to_bits(),
            healthcare: 5.0f64.to_bits(),
            commerce: 6.0f64.to_bits(),
            aid: 7.0f64.to_bits(),
            law: 8.0f64.to_bits(),
            transport: 9.0f64.to_bits(),
            equality: 10.0f64.to_bits(),
            spirituality: 11.0f64.to_bits(),
            welfare: 28.0f64.to_bits(),
        },
        founded: s("0"),
        firstlogin: 1,
        lastlogin: 2,
        lastactivity: s("1 hour ago"),
        influence: s("Zero"),
        influencenum: 0.5f64.to_bits(),
        freedom_scores: FreedomScores { civilrights: 70, economy: 80, polfreedom: 90 },
        publicsector: 42.25f64.to_bits(),
        deaths: vec![Cause { kind: s("Old Age"), percentage: 99.5f64.to_bits() }],
        leader: s("Leader"),
        capital: s("Capital"),
        religion: s("None"),
        factbooks: 3,
        dispatches: 4,
        dbid: 77,
    }
}

#[test]
fn wa_member_is_in_the_wa_but_not_delegate() {
    let n = nation("Crazy girl", "WA Member").finalize();
    assert!(n.is_wa);
    assert!(!n.is_delegate);
    assert_eq!(n.canon_name, "crazy_girl");
}

#[test]
fn wa_delegate_is_delegate_and_in_the_wa() {
    let n = nation("Testlandia", "WA Delegate").finalize();
    assert!(n.is_wa);
    assert!(n.is_delegate);
    assert_eq!(n.canon_name, "testlandia");
}

#[test]
fn non_member_is_neither() {
    for status in ["Non-member", "WA member", "WA Delegate ", ""] {
        let n = nation("Maxtopia", status).finalize();
        assert!(!n.is_wa, "{:?}", status);
        assert!(!n.is_delegate, "{:?}", status);
    }
}

#[test]
fn nation_finalize_keeps_other_fields() {
    let n = nation("The Big One", "WA Member").finalize();
    assert_eq!(n.name, "The Big One");
    assert_eq!(n.canon_name, "the_big_one");
    assert_eq!(n.unstatus, "WA Member");
    assert_eq!(n.endorsements, vec![s("maxtopia")]);
    assert_eq!(f64::from_bits(n.tax), 22.5);
    assert_eq!(f64::from_bits(n.government.welfare), 28.0);
    assert_eq!(f64::from_bits(n.deaths[0].percentage), 99.5);
    assert_eq!(n.freedom_scores.polfreedom, 90);
    assert_eq!(n.dbid, 77);
}

fn region(name: &str) -> Region {
    Region {
        name: s(name),
        canon_name: String::new(),
        factbook: s("Hello <world>"),
        numnations: 2,
        nations: vec![s("testlandia"), s("maxtopia")],
        delegate: s("testlandia"),
        delegatevotes: 3,
        delegateauth: s("X"),
        frontier: 0,
        founder: s("maxtopia"),
        governor: s("0"),
        officers: vec![Officer { nation: s("maxtopia"), office: s("Minister"), authority: s("A"), time: 5, by: s("testlandia"), order: 1 }],
        power: s("High"),
        magnetism: 12.5f64.to_bits(),
        flag_url: s(""),
        banner_id: s("1"),
        banner_url: s(""),
        embassies: vec![s("the_rejected_realms")],
        lastupdate: 10,
        lastmajorupdate: 11,
        lastminorupdate: 12,
    }
}

#[test]
fn region_gets_canonical_name() {
    let r = region("the Plains of Perdition").finalize();
    assert_eq!(r.canon_name, "the_plains_of_perdition");
    assert_eq!(r.name, "the Plains of Perdition");
    assert_eq!(r.nations, vec![s("testlandia"), s("maxtopia")]);
    assert_eq!(f64::from_bits(r.magnetism), 12.5);
    assert_eq!(r.officers[0].order, 1);
}
