use ledger_core::notify::{
    InvitationInput, Task, email_for_task, generate_html, generate_intermidiate, invite_task,
    subject_for_task,
};

#[test]
fn it_builds_intermediate() {
    let task = Task::Invite {
        inviter: "sam@sample.com".to_owned(),
        email: "sally@sample.com".to_owned(),
        invitation_token: "abc".to_owned(),
    };

    let _result = generate_intermidiate(&task).unwrap();
}

#[test]
fn it_generates_html() {
    let intermediate = "<intermediate>Hello</intermediate>";
    let result = generate_html(intermediate).unwrap();

    assert_eq!(result, intermediate)
}

#[test]
fn intermediate_carries_inviter_and_token() {
    let task = Task::Invite {
        inviter: "sam@sample.com".to_owned(),
        email: "sally@sample.com".to_owned(),
        invitation_token: "abc".to_owned(),
    };

    let result = generate_intermidiate(&task).unwrap();

    assert_eq!(
        result,
        "<html><body><p>sam@sample.com has invited you to join. \
         Your invitation token is abc</p></body></html>",
    );
}

#[test]
fn task_recipient_and_subject() {
    let task = Task::Invite {
        inviter: "sam@sample.com".to_owned(),
        email: "sally@sample.com".to_owned(),
        invitation_token: "abc".to_owned(),
    };

    assert_eq!(email_for_task(&task), "sally@sample.com");
    assert_eq!(subject_for_task(&task), "You have been invited");
}

#[test]
fn invitation_input_becomes_a_task() {
    let input = InvitationInput { email: "samantha@sample.com".to_owned() };

    let task = invite_task(&input, "sam@sample.com", "abc");

    let expected = Task::Invite {
        inviter: "sam@sample.com".to_owned(),
        email: "samantha@sample.com".to_owned(),
        invitation_token: "abc".to_owned(),
    };
    assert_eq!(task, expected);
}
