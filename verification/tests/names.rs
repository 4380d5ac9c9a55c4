use crt::codegen::common::names::{
    actor_mod, chan_credit, chan_rx, chan_tx, chan_var, fifo_in, fifo_out, fsm_variant, fsm_wrapper, ident, inst_var, out_port_ctor,
    port_field, port_ref, type_ident,
};

#[test]
fn ident_replaces_foreign_characters() {
    assert_eq!(ident("foo bar"), "foo_bar");
    assert_eq!(ident("a.b-c"), "a_b_c");
    assert_eq!(ident("keep_Me9"), "keep_Me9");
}

#[test]
fn ident_prefixes_leading_digit_and_empty() {
    assert_eq!(ident("9lives"), "_9lives");
    assert_eq!(ident(""), "_");
    assert_eq!(ident("é"), "_");
}

#[test]
fn ident_is_idempotent_on_samples() {
    for name in ["foo bar", "9x", "", "ok", "a.b.c", "__"] {
        let once = ident(name);
        assert_eq!(ident(&once), once);
    }
}

#[test]
fn generated_item_names() {
    assert_eq!(type_ident("My Actor"), "My_Actor");
    assert_eq!(fsm_variant("s0"), "St_s0");
    assert_eq!(fsm_wrapper("Dec"), "DecFsm");
    assert_eq!(inst_var("x.y"), "inst_x_y");
    assert_eq!(port_field("In"), "port_In");
    assert_eq!(port_ref("In"), "self.port_In");
    assert_eq!(actor_mod("Add"), "m_Add");
}

#[test]
fn channel_names() {
    assert_eq!(chan_var("a", "p"), "ch_a_p");
    assert_eq!(chan_tx("a", "p"), "tx_a_p");
    assert_eq!(chan_rx("a", "p"), "rx_a_p");
    assert_eq!(chan_credit("a", "p"), "cr_a_p");
    assert_eq!(fifo_in("a", "p"), "fin_a_p");
    assert_eq!(fifo_out("a", "p"), "fout_a_p");
}

#[test]
fn out_port_ctor_by_target_count() {
    assert_eq!(out_port_ctor(&vec![]), "OutPort::none()");
    assert_eq!(out_port_ctor(&vec!["a.clone()".to_string()]), "OutPort::one(a.clone())");
    assert_eq!(
        out_port_ctor(&vec!["a.clone()".to_string(), "b.clone()".to_string()]),
        "OutPort::many(vec![a.clone(), b.clone()])"
    );
}
