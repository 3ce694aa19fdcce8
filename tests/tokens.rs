use aurion_rs::{get_form_id, get_schedule_form_id, get_view_state};

#[test]
fn form_id_is_read() {
    let page = "<script>chargerSousMenu = function() {PrimeFaces.ab({s:\"form:j_idt52\",f:\"form\"});}</script>";
    assert_eq!(get_form_id(page), Some(52));
}

#[test]
fn form_id_missing_or_invalid() {
    assert_eq!(get_form_id("<html></html>"), None);
    let page = "chargerSousMenu = function() {PrimeFaces.ab({s:\"form:j_idtabc\"";
    assert_eq!(get_form_id(page), None);
    let page = "chargerSousMenu = function() {PrimeFaces.ab({s:\"form:j_idt300\"";
    assert_eq!(get_form_id(page), None);
}

#[test]
fn schedule_form_id_is_read() {
    let page = "<div id=\"form:j_idt11\" class=\"x\"></div><div id=\"form:j_idt117\" class=\"schedule\">";
    assert_eq!(get_schedule_form_id(page), Some(117));
    assert_eq!(get_schedule_form_id("<div class=\"schedule\">"), None);
    assert_eq!(get_schedule_form_id("<div id=\"form:j_idt117\">"), None);
}

#[test]
fn view_state_is_read() {
    let page = "<input type=\"hidden\" name=\"javax.faces.ViewState\" id=\"j_id1\" value=\"-123:456\" />";
    assert_eq!(get_view_state(page), Some("-123:456".to_string()));
    assert_eq!(get_view_state("<input name=\"other\" value=\"1\" />"), None);
    assert_eq!(get_view_state("<input name=\"javax.faces.ViewState\" />"), None);
}
